//! The reapply toast: whether one is shown and the XML payload handed to
//! the Windows notification API.

use vstd::prelude::*;
use crate::escape::{escape_xml, xml_escaped};

verus! {

/// The toast XML for a title and a body, both escaped.
pub open spec fn toast_xml_spec(title: Seq<char>, body: Seq<char>) -> Seq<char> {
    "<toast><visual><binding template=\"ToastGeneric\"><text>"@ + xml_escaped(title) + "</text><text>"@
        + xml_escaped(body) + "</text></binding></visual></toast>"@
}

/// Builds the toast XML of a notification.
pub fn toast_xml(title: &str, body: &str) -> (r: String)
    ensures
        r@ == toast_xml_spec(title@, body@),
{
    let t = escape_xml(title);
    let b = escape_xml(body);
    let mut x = String::from_str("<toast><visual><binding template=\"ToastGeneric\"><text>");
    x.append(t.as_str());
    x.append("</text><text>");
    x.append(b.as_str());
    x.append("</text></binding></visual></toast>");
    x
}

/// A toast to show: its XML, and whether a failure to show it is reported.
#[derive(Debug, Clone)]
pub struct ToastRequest {
    pub xml: String,
    pub report_failure: bool,
}

/// The toast a profile reapply shows: none when toasts are disabled,
/// otherwise the escaped title and body; a failure to show it (as in a
/// service session) is reported only when `verbose`.
pub fn show_reapply_toast(enabled: bool, title: &str, body: &str, verbose: bool) -> (r: Option<ToastRequest>)
    ensures
        !enabled ==> r is None,
        enabled ==> (r matches Some(t) && t.xml@ == toast_xml_spec(title@, body@) && t.report_failure == verbose),
{
    if !enabled {
        return None;
    }
    Some(ToastRequest { xml: toast_xml(title, body), report_failure: verbose })
}

} // verus!
