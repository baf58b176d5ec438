//! The template-render reply adapter: successful markup becomes a plain
//! page reply, a render failure becomes a server-error reply whose body
//! embeds the error text and a dump of the view-model that failed.

use vstd::prelude::*;
use vstd::string::StringExecFns;

verus! {

/// A reply ready to be written out: a status code and a body.
#[derive(Clone, Debug, PartialEq, Eq)]
pub struct Reply {
    pub status: u16,
    pub body: String,
}

/// Wraps the outcome of rendering a template. Successful markup is served
/// as-is with status 200. A failure becomes a status 500 reply whose body
/// names the error (`rendered`'s failure text) and dumps the view-model's
/// fields (`dump`), the one place a render failure is reported.
pub fn render_reply(rendered: Result<String, String>, dump: String) -> (r: Reply)
    ensures
        rendered is Ok ==> r.status == 200 && r.body@ == rendered->Ok_0@,
        rendered is Err ==> r.status == 500 && r.body@ == "Failed to render template. Error: "@
            + rendered->Err_0@ + "; data "@ + dump@,
{
    match rendered {
        Result::Ok(html) => Reply { status: 200, body: html },
        Result::Err(err) => {
            let mut body: String = "Failed to render template. Error: ".to_owned();
            body.append(err.as_str());
            body.append("; data ");
            body.append(dump.as_str());
            Reply { status: 500, body }
        },
    }
}

} // verus!
