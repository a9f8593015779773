//! Paste identifiers: random alphanumeric names and the files they stand for.

use crate::text::push_char;
use vstd::prelude::*;
use vstd::string::*;

verus! {

/// Declares `rand`'s thread-local generator to Verus; nothing is known of
/// what it holds.
#[verifier::external_type_specification]
#[verifier::external_body]
pub struct ExThreadRng(rand::rngs::ThreadRng);

/// Trusted: `rand::rng()` hands out the thread-local random generator.
/// Nothing is stated of it.
#[verifier::external_body]
fn thread_rng() -> rand::rngs::ThreadRng {
    rand::rng()
}

/// Trusted: `rand::seq::IndexedRandom::choose` on a slice of bytes. As its
/// documentation says, it gives `None` exactly for an empty slice and
/// otherwise one element of the slice; which element is left to chance.
#[verifier::external_body]
fn choose_byte(alphabet: &[u8], rng: &mut rand::rngs::ThreadRng) -> (b: Option<u8>)
    ensures
        b is None <==> alphabet@.len() == 0,
        b matches Some(x) ==> alphabet@.contains(x),
{
    rand::seq::IndexedRandom::choose(alphabet, rng).copied()
}

/// A character of an identifier: an ASCII letter or digit, as
/// `char::is_ascii_alphanumeric` has it.
pub open spec fn is_id_char(c: char) -> bool {
    ('0' <= c <= '9') || ('A' <= c <= 'Z') || ('a' <= c <= 'z')
}

/// A text made of identifier characters only.
pub open spec fn is_id(s: Seq<char>) -> bool {
    forall|i: int| 0 <= i < s.len() ==> is_id_char(#[trigger] s[i])
}

/// The bytes `0-9`, `A-Z` and `a-z`, in this order.
pub open spec fn base62() -> Seq<u8> {
    Seq::new(
        62,
        |i: int|
            if i < 10 {
                (48 + i) as u8
            } else if i < 36 {
                (55 + i) as u8
            } else {
                (61 + i) as u8
            },
    )
}

/// The path of `id` below `root`, as `Path::new(root).join(id)` gives it for
/// an identifier: a separator is put in between unless `root` is empty or
/// already ends with one.
pub open spec fn joined_path(root: Seq<char>, id: Seq<char>) -> Seq<char> {
    if root.len() == 0 || root.last() == '/' {
        root + id
    } else {
        root.push('/') + id
    }
}

/// A probably unique paste identifier, made of ASCII letters and digits.
pub struct PasteId {
    id: String,
}

impl View for PasteId {
    type V = Seq<char>;

    closed spec fn view(&self) -> Seq<char> {
        self.id@
    }
}

fn base62_alphabet() -> (v: Vec<u8>)
    ensures
        v@ == base62(),
{
    let mut v: Vec<u8> = Vec::new();
    let mut i: u8 = 0;
    while i < 62
        invariant
            i <= 62,
            v@ == base62().take(i as int),
        decreases 62 - i,
    {
        let b: u8 = if i < 10 {
            48 + i
        } else if i < 36 {
            55 + i
        } else {
            61 + i
        };
        v.push(b);
        assert(base62().take(i + 1) =~= base62().take(i as int).push(b));
        i = i + 1;
    }
    assert(base62().take(62) =~= base62());
    v
}

/// The characters of alphabet bytes, each byte read as the character of the
/// same code.
pub open spec fn id_chars(bytes: Seq<u8>) -> Seq<char> {
    bytes.map_values(|b: u8| b as char)
}

/// Bytes that all belong to the alphabet `0-9`, `A-Z`, `a-z`.
pub open spec fn all_in_alphabet(bytes: Seq<u8>) -> bool {
    forall|i: int| 0 <= i < bytes.len() ==> base62().contains(#[trigger] bytes[i])
}

/// The character of an alphabet byte.
fn id_char(b: u8) -> (c: char)
    requires
        base62().contains(b),
    ensures
        c == b as char,
        is_id_char(c),
{
    let c = b as char;
    assert(is_id_char(c)) by {
        let k = choose|k: int| 0 <= k < 62 && base62()[k] == b;
        assert(base62()[k] == b);
    }
    c
}

impl PasteId {
    #[verifier::type_invariant]
    spec fn well_formed(self) -> bool {
        is_id(self.id@)
    }

    /// The identifier spelled by alphabet bytes, one character per byte.
    pub fn from_alphabet_bytes(bytes: &Vec<u8>) -> (p: PasteId)
        requires
            all_in_alphabet(bytes@),
        ensures
            p@ == id_chars(bytes@),
            is_id(p@),
    {
        let mut id = String::new();
        let mut i: usize = 0;
        while i < bytes.len()
            invariant
                i <= bytes.len(),
                all_in_alphabet(bytes@),
                id@ == id_chars(bytes@.take(i as int)),
                is_id(id@),
            decreases bytes.len() - i,
        {
            let c = id_char(bytes[i]);
            push_char(&mut id, c);
            assert(id_chars(bytes@.take(i + 1)) =~= id_chars(bytes@.take(i as int)).push(c));
            i = i + 1;
        }
        assert(bytes@.take(bytes.len() as int) =~= bytes@);
        PasteId { id }
    }

    /// Generates a probably unique identifier of `size` characters, each
    /// drawn at random from `0-9`, `A-Z` and `a-z`: the identifier spelled by
    /// `size` bytes drawn from that alphabet.
    pub fn _new(size: usize) -> (p: PasteId)
        ensures
            p@.len() == size,
            is_id(p@),
            exists|drawn: Seq<u8>|
                drawn.len() == size && all_in_alphabet(drawn) && p@ == #[trigger] id_chars(drawn),
    {
        let alphabet = base62_alphabet();
        let mut rng = thread_rng();
        let mut drawn: Vec<u8> = Vec::new();
        let mut i: usize = 0;
        while i < size
            invariant
                i <= size,
                drawn@.len() == i,
                all_in_alphabet(drawn@),
                alphabet@ == base62(),
            decreases size - i,
        {
            match choose_byte(alphabet.as_slice(), &mut rng) {
                Some(b) => {
                    drawn.push(b);
                },
                None => {
                    assert(false);
                },
            }
            i = i + 1;
        }
        let p = PasteId::from_alphabet_bytes(&drawn);
        assert(id_chars(drawn@).len() == size);
        p
    }

    /// The path of the paste in the directory `root`.
    pub fn file_path(&self, root: &str) -> (path: String)
        ensures
            path@ == joined_path(root@, self@),
            path@.subrange(0, root@.len() as int) == root@,
            (root@.len() > 0 && root@.last() != '/') ==> path@ == root@ + seq!['/'] + self@,
            (root@.len() == 0 || root@.last() == '/') ==> path@ == root@ + self@,
    {
        proof {
            use_type_invariant(self);
        }
        let mut path = String::from_str(root);
        let n = root.unicode_len();
        if n > 0 && root.get_char(n - 1) != '/' {
            push_char(&mut path, '/');
        }
        path.append(self.id.as_str());
        assert(path@.subrange(0, root@.len() as int) =~= root@);
        proof {
            lemma_joined_path(root@, self@);
        }
        path
    }

    /// The identifier as a paste id of a path segment: `Ok` exactly when the
    /// segment is made of ASCII letters and digits, and otherwise the segment
    /// itself as the error.
    pub fn from_param(param: &str) -> (res: Result<PasteId, String>)
        ensures
            res is Ok <==> is_id(param@),
            res is Ok <==> (forall|i: int|
                0 <= i < param@.len() ==> (('0' <= #[trigger] param@[i] <= '9') || ('A' <= param@[i]
                    <= 'Z') || ('a' <= param@[i] <= 'z'))),
            res matches Ok(p) ==> p@ == param@,
            res matches Err(e) ==> e@ == param@,
    {
        let n = param.unicode_len();
        let mut i: usize = 0;
        while i < n
            invariant
                n == param@.len(),
                i <= n,
                forall|j: int| 0 <= j < i ==> is_id_char(#[trigger] param@[j]),
            decreases n - i,
        {
            let c = param.get_char(i);
            if !(('0' <= c && c <= '9') || ('A' <= c && c <= 'Z') || ('a' <= c && c <= 'z')) {
                assert(!is_id_char(param@[i as int]));
                return Err(String::from_str(param));
            }
            i = i + 1;
        }
        Ok(PasteId { id: String::from_str(param) })
    }

    /// The identifier as text, as `Display` writes it.
    pub fn to_string(&self) -> (s: String)
        ensures
            s@ == self@,
    {
        self.id.clone()
    }
}


/// The path of an identifier below a root that is not empty and does not
/// end with a separator is the root, one `/` and the identifier: its parent
/// is the root and its file name the identifier. Below an empty root or one
/// that ends with `/`, it is the root followed by the identifier.
pub proof fn lemma_joined_path(root: Seq<char>, id: Seq<char>)
    ensures
        (root.len() > 0 && root.last() != '/') ==> joined_path(root, id) == root + seq!['/'] + id,
        (root.len() > 0 && root.last() != '/') ==> joined_path(root, id).len() == root.len() + 1
            + id.len() && joined_path(root, id)[root.len() as int] == '/',
        (root.len() == 0 || root.last() == '/') ==> joined_path(root, id) == root + id,
{
    assert(root.push('/') =~= root + seq!['/']);
}

/// The identifier characters are the ASCII letters and digits: the codes
/// 48 to 57, 65 to 90 and 97 to 122.
pub proof fn lemma_id_chars_by_code(c: char)
    ensures
        is_id_char(c) <==> ((48 <= (c as int) <= 57) || (65 <= (c as int) <= 90) || (97 <= (
        c as int) <= 122)),
{
}

/// The alphabet of generated identifiers holds exactly the bytes of the ASCII
/// letters and digits.
pub proof fn lemma_base62_members(b: u8)
    ensures
        base62().contains(b) <==> ((48 <= b <= 57) || (65 <= b <= 90) || (97 <= b <= 122)),
        base62().len() == 62,
{
    if 48 <= b <= 57 {
        assert(base62()[b - 48] == b);
    } else if 65 <= b <= 90 {
        assert(base62()[b - 55] == b);
    } else if 97 <= b <= 122 {
        assert(base62()[b - 61] == b);
    }
    if base62().contains(b) {
        let k = choose|k: int| 0 <= k < 62 && base62()[k] == b;
        assert(base62()[k] == b);
    }
}

} // verus!
