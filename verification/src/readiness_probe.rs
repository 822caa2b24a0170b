use vstd::prelude::*;

verus! {

/// An HTTP status that counts as ready: any success status.
pub fn http_status_ok(status: u16) -> (r: bool)
    ensures
        r == (200 <= status <= 299),
{
    200 <= status && status <= 299
}

/// What an HTTP probe reports for the status its request came back with,
/// absent on any transport error: ready exactly on a success status.
pub fn http_probe_result(status: Option<u16>) -> (r: bool)
    ensures
        r == (status matches Some(s) && 200 <= s <= 299),
{
    match status {
        Some(s) => http_status_ok(s),
        None => false,
    }
}

/// What a command probe reports for the exit code its child ended with,
/// absent when the spawn failed or the child was killed by a signal:
/// ready exactly on exit code zero.
pub fn command_probe_result(exit_code: Option<i32>) -> (r: bool)
    ensures
        r == (exit_code matches Some(c) && c == 0),
{
    match exit_code {
        Some(c) => c == 0,
        None => false,
    }
}

} // verus!
