//! The service functions that the wrapper stands in for.

use crate::globals::{Globals, GlobalsView};
use vstd::prelude::*;

verus! {

/// A service function.
#[derive(Clone, Copy, Debug, PartialEq, Eq, Structural)]
pub enum Export {
    ServiceMain,
    SvchostPushServiceGlobals,
}

impl Export {
    /// What the log says when the function is entered.
    pub fn enter_message(self) -> (r: &'static str)
        ensures
            r@ == (match self {
                Export::ServiceMain => ">>> ServiceMain\r\n"@,
                Export::SvchostPushServiceGlobals => ">>> SvchostPushServiceGlobals\r\n"@,
            }),
    {
        match self {
            Export::ServiceMain => ">>> ServiceMain\r\n",
            Export::SvchostPushServiceGlobals => ">>> SvchostPushServiceGlobals\r\n",
        }
    }

    /// What the log says when the function is left.
    pub fn leave_message(self) -> (r: &'static str)
        ensures
            r@ == (match self {
                Export::ServiceMain => "<<< ServiceMain\r\n"@,
                Export::SvchostPushServiceGlobals => "<<< SvchostPushServiceGlobals\r\n"@,
            }),
    {
        match self {
            Export::ServiceMain => "<<< ServiceMain\r\n",
            Export::SvchostPushServiceGlobals => "<<< SvchostPushServiceGlobals\r\n",
        }
    }

    /// The function of the terminal service that the call goes on to, where it
    /// was found.
    pub open spec fn passed_on(self, g: GlobalsView) -> Option<usize> {
        match self {
            Export::ServiceMain => g.service_main,
            Export::SvchostPushServiceGlobals => g.svchost_push,
        }
    }

    /// The function of the terminal service that the call goes on to, where it
    /// was found.
    pub fn target(self, g: &Globals) -> (r: Option<usize>)
        ensures
            r == self.passed_on(g@),
    {
        match self {
            Export::ServiceMain => g.service_main,
            Export::SvchostPushServiceGlobals => g.svchost_push,
        }
    }
}

/// Lets the installation happen once.
#[derive(Clone, Copy, Debug, PartialEq, Eq, Structural)]
pub struct Installation {
    pub hooked: bool,
}

impl Installation {
    /// Before the first service function is called.
    pub fn new() -> (r: Installation)
        ensures
            !r.hooked,
    {
        Installation { hooked: false }
    }

    /// Whether the service function that is called now has to install the
    /// wrapper: the first one has.
    pub fn enter(&mut self) -> (r: bool)
        ensures
            r == !old(self).hooked,
            final(self).hooked,
    {
        let first = !self.hooked;
        self.hooked = true;
        first
    }
}

/// What a call of a service function wants done next.
#[derive(Clone, Copy, Debug, PartialEq, Eq, Structural)]
pub enum Request {
    /// Log that the function is entered.
    Enter,
    /// Install the wrapper.
    Install,
    /// Call the function of the terminal service.
    Call { target: usize },
    /// Log that the function is left.
    Leave,
    /// Nothing: the call is over.
    Done,
}

/// The request that passes the call on, where there is a function to pass it to.
pub open spec fn passing_on(target: Option<usize>) -> Request {
    match target {
        Some(address) => Request::Call { target: address },
        None => Request::Leave,
    }
}

/// The request after one was met, where the wrapper was, or was not, installed
/// before, and the function of the terminal service is at the target.
pub open spec fn next_request(request: Request, hooked: bool, target: Option<usize>) -> Request {
    match request {
        Request::Enter => if hooked {
            passing_on(target)
        } else {
            Request::Install
        },
        Request::Install => passing_on(target),
        Request::Call { target: _ } => Request::Leave,
        Request::Leave => Request::Done,
        Request::Done => Request::Done,
    }
}

/// The function that a call goes on to: none as long as there is no state.
pub open spec fn known_target(export: Export, g: Option<&Globals>) -> Option<usize> {
    match g {
        Some(globals) => export.passed_on(globals@),
        None => None,
    }
}

/// Goes on with a call of a service function after a request was met.
pub fn continue_call(
    request: Request,
    export: Export,
    installation: &mut Installation,
    g: Option<&Globals>,
) -> (r: Request)
    ensures
        r == next_request(request, old(installation).hooked, known_target(export, g)),
        final(installation).hooked == (old(installation).hooked || request == Request::Enter),
{
    let target = match g {
        Some(globals) => export.target(globals),
        None => None,
    };
    let passing_on = match target {
        Some(address) => Request::Call { target: address },
        None => Request::Leave,
    };
    match request {
        Request::Enter => if installation.enter() {
            Request::Install
        } else {
            passing_on
        },
        Request::Install => passing_on,
        Request::Call { target: _ } => Request::Leave,
        Request::Leave => Request::Done,
        Request::Done => Request::Done,
    }
}

/// The first call of a service function installs the wrapper and no later one
/// does; each goes on to the terminal service where its function was found, and
/// is logged when it is entered and when it is left.
pub proof fn law_first_call_installs(before: Option<usize>, after: Option<usize>)
    ensures
        ({
            let first = next_request(Request::Enter, false, before);
            let passed = next_request(first, true, after);
            let later = next_request(Request::Enter, true, after);
            &&& first == Request::Install
            &&& passed == later
            &&& after matches Some(target) ==> later == (Request::Call { target })
                && next_request(later, true, after) == Request::Leave
            &&& after is None ==> later == Request::Leave
            &&& next_request(Request::Leave, true, after) == Request::Done
        }),
{
}

/// Each service function goes on to the function of the same name, wherever that
/// is; as long as there is no state it goes on to none.
pub proof fn law_calls_go_on(g: Globals)
    ensures
        known_target(Export::ServiceMain, Some(&g)) == g.service_main,
        known_target(Export::SvchostPushServiceGlobals, Some(&g)) == g.svchost_push,
        known_target(Export::ServiceMain, None) is None,
        known_target(Export::SvchostPushServiceGlobals, None) is None,
{
}

} // verus!
