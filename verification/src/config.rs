//! Plain configuration values the launcher is driven by. Parsing the
//! on-disk configuration file (and the markup attributes it may carry) is
//! the presentation layer's business; the core only holds the parsed,
//! already-validated values.

use vstd::prelude::*;
use vstd::string::{StrSliceExecFns, StringExecFns};

verus! {

/// A desktop-entry field that can feed the extra or hidden search text.
#[derive(Debug, Copy, Clone)]
pub enum Field {
    Comment,
    Id,
    IdSuffix,
    Executable,
    Commandline,
}

/// A value for each side of a rectangle, as margins and anchors use it.
#[derive(Debug, Default, Copy, Clone)]
pub struct Sides<T> {
    pub left: T,
    pub right: T,
    pub top: T,
    pub bottom: T,
}

impl<T> Sides<T> {
    /// Bundle four per-side values.
    pub fn new(left: T, right: T, top: T, bottom: T) -> (s: Self)
        ensures
            s.left == left,
            s.right == right,
            s.top == top,
            s.bottom == bottom,
    {
        Self { left, right, top, bottom }
    }
}

/// The launcher's configuration, restricted to plain values: window
/// geometry, candidate-text policy, and the command prefix.
pub struct Config {
    pub exclusive: bool,
    pub recent_first: bool,
    pub icon_size: i32,
    pub lines: i32,
    pub margin: Sides<i32>,
    pub anchor: Sides<bool>,
    pub width: i32,
    pub height: i32,
    pub extra_field: Vec<Field>,
    pub hidden_fields: Vec<Field>,
    pub hide_extra_if_contained: bool,
    pub command_prefix: String,
    pub exclude: Vec<String>,
    pub term_command: Option<String>,
}

impl Default for Config {
    /// The built-in defaults, used when no configuration file overrides
    /// them.
    fn default() -> (c: Self)
        ensures
            c.exclusive == true,
            c.recent_first == true,
            c.icon_size == 64,
            c.lines == 2,
            c.margin == (Sides { left: 0i32, right: 0i32, top: 0i32, bottom: 0i32 }),
            c.anchor == (Sides { left: false, right: true, top: true, bottom: true }),
            c.width == -1,
            c.height == -1,
            c.extra_field@.len() == 1 && c.extra_field@[0] is IdSuffix,
            c.hidden_fields@.len() == 0,
            c.hide_extra_if_contained == true,
            c.command_prefix@ == ":"@,
            c.exclude@.len() == 0,
            c.term_command is None,
    {
        Self {
            exclusive: true,
            recent_first: true,
            icon_size: 64,
            lines: 2,
            margin: Sides::new(0, 0, 0, 0),
            anchor: Sides::new(false, true, true, true),
            width: -1,
            height: -1,
            extra_field: vec![Field::IdSuffix],
            hidden_fields: Vec::new(),
            hide_extra_if_contained: true,
            command_prefix: String::from_str(":"),
            exclude: Vec::new(),
            term_command: None,
        }
    }
}

/// The typed text names a recognized command rather than a search: it
/// starts with the configured command prefix.
pub fn is_command(text: &str, prefix: &str) -> (r: bool)
    ensures
        r == (prefix@.len() <= text@.len() && text@.subrange(0, prefix@.len() as int)
            == prefix@),
{
    let n = prefix.unicode_len();
    if n > text.unicode_len() {
        return false;
    }
    let mut i: usize = 0;
    while i < n
        invariant
            i <= n,
            n == prefix@.len(),
            n <= text@.len(),
            forall|k: int| 0 <= k < i ==> text@[k] == prefix@[k],
        decreases n - i,
    {
        if text.get_char(i) != prefix.get_char(i) {
            proof {
                assert(text@.subrange(0, n as int)[i as int] != prefix@[i as int]);
            }
            return false;
        }
        i += 1;
    }
    proof {
        assert(text@.subrange(0, n as int) =~= prefix@);
    }
    true
}

} // verus!
