use vstd::prelude::*;

verus! {

/// The routes of the HTTP interface.
#[derive(Debug, Clone, Copy, PartialEq, Eq)]
pub enum Route {
    /// `GET /`: list every item.
    List,
    /// `POST /create`: create an item.
    Create,
    /// `POST /update`: update an item by identifier.
    Update,
    /// `POST /delete`: delete an item by reference.
    Delete,
}

/// The status a route answers with: 201 for a successful create, 200 for
/// any other success, and 500 for any failure, whether nothing was found or
/// the store failed.
pub fn status_for(route: Route, succeeded: bool) -> (code: u16)
    ensures
        code == if !succeeded {
            500u16
        } else if route == Route::Create {
            201u16
        } else {
            200u16
        },
{
    if !succeeded {
        500
    } else {
        match route {
            Route::Create => 201,
            _ => 200,
        }
    }
}

} // verus!
