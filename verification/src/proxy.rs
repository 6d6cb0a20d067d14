//! The proxy pass-through: one GET against an arbitrary URL, no retries.
//! The caller performs the request and reports the outcome; this module
//! decides the result and the exact error messages.

use vstd::prelude::*;
use crate::numfmt::dec_str;
use crate::pipeline::HttpEvent;
use crate::pipeline::HttpEventV;
use crate::pipeline::res_matches;
use crate::probe::is_success;

verus! {

/// The proxy's result for one reported outcome: the body on any success
/// status; otherwise an error naming the status line and the bare code, the
/// transport failure, or the body-read failure.
pub open spec fn proxy_spec(ev: HttpEventV) -> Result<Seq<char>, Seq<char>> {
    match ev {
        HttpEventV::Response { status, status_text, content_type, body } => {
            if is_success(status) {
                Ok(body)
            } else {
                Err("HTTP "@ + status_text + ": "@ + dec_str(status as int))
            }
        },
        HttpEventV::Transport(m) => Err("HTTP request failed: "@ + m),
        HttpEventV::ReadFailed(m) => Err("Failed to read response text: "@ + m),
    }
}

/// Decides the proxy's result for one reported outcome, exactly
/// `proxy_spec`.
pub fn proxy_outcome(ev: &HttpEvent) -> (r: Result<String, String>)
    ensures
        res_matches(r, proxy_spec(ev@)),
{
    match ev {
        HttpEvent::Response { status, status_text, content_type, body } => {
            if 200 <= *status && *status < 300 {
                Ok(body.clone())
            } else {
                let mut m = "HTTP ".to_owned();
                m.append(status_text.as_str());
                m.append(": ");
                crate::numfmt::push_u16_dec(&mut m, *status);
                Err(m)
            }
        },
        HttpEvent::Transport(msg) => {
            let mut m = "HTTP request failed: ".to_owned();
            m.append(msg.as_str());
            Err(m)
        },
        HttpEvent::ReadFailed(msg) => {
            let mut m = "Failed to read response text: ".to_owned();
            m.append(msg.as_str());
            Err(m)
        },
    }
}

} // verus!
