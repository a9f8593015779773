//! What the database code decides once a query has answered: the number of
//! available interfaces, the value that stores availability, and whether a
//! stored user matches the one that asks.

use vstd::prelude::*;
use vstd::string::*;

verus! {

/// The number of available interfaces, as a byte: the number of rows that
/// the query for available interfaces returned, wrapped as `as u8` does.
pub fn interface_count(rows: usize) -> (count: u8)
    ensures
        count == rows % 256,
{
    (rows % 256) as u8
}

/// The value stored in the `available` column: 1 for available, 0 for not.
pub fn availability_flag(available: bool) -> (flag: i32)
    ensures
        flag == (if available { 1int } else { 0int }),
{
    match available {
        true => 1,
        false => 0,
    }
}

/// Why a lookup found no matching user.
#[derive(PartialEq, Eq, Structural, Debug, Clone, Copy)]
pub enum LookupError {
    RowNotFound,
}

/// Checks the stored id and password of a user against those given at
/// login: the stored pair when both match, `RowNotFound` otherwise.
pub fn check_login(stored_id: String, stored_password: String, user: &str, pw: &str) -> (res:
    Result<(String, String), LookupError>)
    ensures
        res is Ok <==> (stored_password@ == pw@ && stored_id@ == user@),
        res matches Ok(pair) ==> pair.0@ == stored_id@ && pair.1@ == stored_password@,
        res matches Err(e) ==> e == LookupError::RowNotFound,
{
    let given_pw = String::from_str(pw);
    let given_user = String::from_str(user);
    if stored_password == given_pw && stored_id == given_user {
        Ok((stored_id, stored_password))
    } else {
        Err(LookupError::RowNotFound)
    }
}

/// Checks that the row found for a user id is that user's.
pub fn check_user(stored_id: &str, user: &str) -> (res: Result<(), LookupError>)
    ensures
        res is Ok <==> stored_id@ == user@,
        res matches Err(e) ==> e == LookupError::RowNotFound,
{
    if String::from_str(stored_id) == String::from_str(user) {
        Ok(())
    } else {
        Err(LookupError::RowNotFound)
    }
}

} // verus!
