//! Whether the daemon is asked to stop.
use vstd::prelude::*;

verus! {

/// The request to stop. Once made, it stands for as long as the process lives.
#[derive(Debug)]
pub struct ShutdownFlag {
    requested: bool,
}

impl ShutdownFlag {
    pub closed spec fn requested(&self) -> bool {
        self.requested
    }

    /// Nothing is asked yet.
    pub fn new() -> (r: ShutdownFlag)
        ensures
            !r.requested(),
    {
        ShutdownFlag { requested: false }
    }

    /// Whether the daemon is asked to stop.
    pub fn is_requested(&self) -> (r: bool)
        ensures
            r == self.requested(),
    {
        self.requested
    }
}

/// Asks the daemon to stop. To ask again changes nothing.
pub fn request_shutdown(flag: &mut ShutdownFlag)
    ensures
        final(flag).requested(),
        old(flag).requested() ==> *final(flag) == *old(flag),
{
    flag.requested = true;
}

/// Takes the request back, so that one test does not disturb the next. The
/// daemon itself never does this.
pub fn reset_for_test(flag: &mut ShutdownFlag)
    ensures
        !final(flag).requested(),
{
    flag.requested = false;
}

/// A request to stop stands once it was made, however often it is made; nothing is asked in
/// the beginning.
pub proof fn a_request_to_stop_stands(
    fresh: ShutdownFlag,
    flag: Ghost<&mut ShutdownFlag>,
    again: Ghost<&mut ShutdownFlag>,
    before: bool,
    after: bool,
)
    requires
        call_ensures(ShutdownFlag::new, (), fresh),
        call_ensures(ShutdownFlag::is_requested, (&fresh,), before),
        *flag@ == fresh,
        call_ensures(request_shutdown, (flag@,), ()),
        *again@ == *final(flag@),
        call_ensures(request_shutdown, (again@,), ()),
        call_ensures(ShutdownFlag::is_requested, (&*final(again@),), after),
    ensures
        !before,
        after,
        *final(again@) == *final(flag@),
{
}

/// A request to stop can be taken back for a new beginning.
pub proof fn a_flag_can_begin_anew(flag: Ghost<&mut ShutdownFlag>, r: bool)
    requires
        call_ensures(reset_for_test, (flag@,), ()),
        call_ensures(ShutdownFlag::is_requested, (&*final(flag@),), r),
    ensures
        !r,
{
}

} // verus!
