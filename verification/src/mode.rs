//! Port acquisition mode of a session.

use crate::strutil::{trim_blank, trim_spec};
use vstd::prelude::*;
use vstd::string::*;

verus! {

/// Identity key of the mode requested by a selector string: `"auto"` for a
/// blank selector, else `"fixed:"` followed by the trimmed port name.
pub open spec fn mode_key_of(selector: Seq<char>) -> Seq<char> {
    if trim_spec(selector).len() == 0 {
        "auto"@
    } else {
        "fixed:"@ + trim_spec(selector)
    }
}

/// How a session acquires its serial port.
pub enum RunMode {
    /// Keep trying to open one specific port, and recover if it disappears.
    Fixed(String),
    /// Periodically scan ports and adopt the first that yields a valid frame.
    Auto,
}

impl RunMode {
    /// Mode requested by a selector string: blank means auto-discovery, any
    /// other text names a fixed port, with surrounding blanks stripped.
    pub fn from_port_name(port_name: &str) -> (r: RunMode)
        ensures
            r is Auto <==> trim_spec(port_name@).len() == 0,
            r matches RunMode::Fixed(p) ==> p@ == trim_spec(port_name@),
    {
        let t = trim_blank(port_name);
        if t.as_str().unicode_len() == 0 {
            RunMode::Auto
        } else {
            RunMode::Fixed(t)
        }
    }

    /// Identity key of the mode: `"auto"`, or `"fixed:"` followed by the port
    /// name.
    pub fn key(&self) -> (r: String)
        ensures
            self is Auto ==> r@ == "auto"@,
            self matches RunMode::Fixed(p) ==> r@ == "fixed:"@ + p@,
    {
        match self {
            RunMode::Auto => "auto".to_owned(),
            RunMode::Fixed(p) => {
                let mut s = "fixed:".to_owned();
                s.append(p.as_str());
                s
            },
        }
    }

    /// The fixed port name, when the mode names one.
    pub fn fixed_port(&self) -> (r: Option<&str>)
        ensures
            self is Auto <==> r is None,
            self matches RunMode::Fixed(p) ==> r matches Some(q) && q@ == p@,
    {
        match self {
            RunMode::Fixed(p) => Some(p.as_str()),
            RunMode::Auto => None,
        }
    }
}

} // verus!
