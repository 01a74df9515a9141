//! The `{ success, status_code, message, data }` envelope of every reply.
use vstd::prelude::*;
use vstd::string::*;

verus! {

pub struct ApiResponse<T> {
    pub success: bool,
    pub status_code: u16,
    pub message: String,
    pub data: Option<T>,
}

/// A 200 reply carrying `data`.
pub fn success<T>(message: &str, data: T) -> (r: ApiResponse<T>)
    ensures
        r.success,
        r.status_code == 200,
        r.message@ == message@,
        r.data == Some(data),
{
    ApiResponse { success: true, status_code: 200, message: String::from_str(message), data: Some(data) }
}

/// A failed reply with the given status code and no data.
pub fn failure(message: &str, code: u16) -> (r: ApiResponse<()>)
    ensures
        !r.success,
        r.status_code == code,
        r.message@ == message@,
        r.data is None,
{
    ApiResponse { success: false, status_code: code, message: String::from_str(message), data: None }
}

} // verus!
