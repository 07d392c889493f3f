//! Hyprland support: finding the window of a process in the client list that
//! `hyprctl clients -j` prints, and following focus changes from the lines of
//! Hyprland's event socket.

use vstd::prelude::*;

use crate::text::str_eq;

verus! {

#[verifier::external_type_specification]
#[verifier::external_body]
pub struct ExJsonError(serde_json::Error);

/// One client window from the client list: its process id and its address,
/// each present only when the JSON holds a value of the right kind.
pub struct HyprClient {
    pub pid: Option<u64>,
    pub address: Option<String>,
}

impl View for HyprClient {
    type V = (Option<u64>, Option<Seq<char>>);

    open spec fn view(&self) -> Self::V {
        (
            self.pid,
            match self.address {
                Some(a) => Some(a@),
                None => None,
            },
        )
    }
}

/// The clients in a JSON client list: for each element of the top-level
/// array, its `pid` as an unsigned integer and its `address` as a string;
/// `None` when serde_json does not read the bytes as a JSON array (which
/// includes input nested deeper than its recursion limit).
pub uninterp spec fn clients_from_json(json: Seq<u8>) -> Option<Seq<(Option<u64>, Option<Seq<char>>)>>;

/// `serde_json::from_slice` into a list of `serde_json::Value`, with each
/// element's `pid` read by `Value::as_u64` and its `address` by `Value::as_str`.
///
/// Trusted: the contract names the result `clients_from_json` of the bytes; it
/// says nothing of which bytes serde_json accepts, nor of its error value.
#[verifier::external_body]
fn parse_clients(json: &[u8]) -> (r: Result<Vec<HyprClient>, serde_json::Error>)
    ensures
        r is Ok <==> clients_from_json(json@) is Some,
        r matches Ok(cs) ==> cs@.map_values(|c: HyprClient| c@) == clients_from_json(json@).unwrap(),
{
    let values: Vec<serde_json::Value> = serde_json::from_slice(json)?;
    Ok(values.iter().map(|v| HyprClient {
        pid: v["pid"].as_u64(),
        address: v["address"].as_str().map(|s| s.to_string()),
    }).collect())
}

/// A text with every leading `0x` removed.
pub open spec fn strip_hex_prefix(s: Seq<char>) -> Seq<char>
    decreases s.len(),
{
    if s.len() >= 2 && s[0] == '0' && s[1] == 'x' {
        strip_hex_prefix(s.subrange(2, s.len() as int))
    } else {
        s
    }
}

/// A text with every leading `0x` removed.
pub fn trim_hex_prefix(s: &str) -> (t: String)
    ensures
        t@ == strip_hex_prefix(s@),
{
    let n = s.unicode_len();
    let mut i: usize = 0;
    assert(s@.subrange(0, n as int) =~= s@);
    while n - i >= 2 && s.get_char(i) == '0' && s.get_char(i + 1) == 'x'
        invariant
            n == s@.len(),
            i <= n,
            strip_hex_prefix(s@) == strip_hex_prefix(s@.subrange(i as int, n as int)),
        decreases n - i,
    {
        let ghost rest = s@.subrange(i as int, n as int);
        assert(rest.subrange(2, rest.len() as int) =~= s@.subrange(i + 2, n as int));
        i = i + 2;
    }
    let ghost rest = s@.subrange(i as int, n as int);
    assert(strip_hex_prefix(rest) == rest);
    s.substring_char(i, n).to_owned()
}

/// The index of the first client of process `pid` that has an address.
pub open spec fn is_first_window(cs: Seq<(Option<u64>, Option<Seq<char>>)>, pid: u32, k: int) -> bool {
    &&& 0 <= k < cs.len()
    &&& cs[k].0 == Some(pid as u64)
    &&& cs[k].1 is Some
    &&& forall|j: int| 0 <= j < k ==> !(#[trigger] cs[j].0 == Some(pid as u64) && cs[j].1 is Some)
}

/// The address of the first client of process `pid` that has one, with its
/// leading `0x` removed.
pub fn find_client_window(clients: &Vec<HyprClient>, pid: u32) -> (addr: Option<String>)
    ensures
        match addr {
            Some(a) => exists|k: int|
                is_first_window(clients@.map_values(|c: HyprClient| c@), pid, k) && a@ == strip_hex_prefix(
                    #[trigger] clients@[k]@.1.unwrap(),
                ),
            None => forall|k: int|
                0 <= k < clients@.len() ==> !(#[trigger] clients@[k]@.0 == Some(pid as u64)
                    && clients@[k]@.1 is Some),
        },
{
    let ghost cs = clients@.map_values(|c: HyprClient| c@);
    let mut k: usize = 0;
    while k < clients.len()
        invariant
            k <= clients@.len(),
            cs == clients@.map_values(|c: HyprClient| c@),
            forall|j: int| 0 <= j < k ==> !(#[trigger] clients@[j]@.0 == Some(pid as u64) && clients@[j]@.1 is Some),
        decreases clients@.len() - k,
    {
        let c = &clients[k];
        if c.pid == Some(pid as u64) {
            match &c.address {
                Some(a) => {
                    let t = trim_hex_prefix(a.as_str());
                    proof {
                        assert forall|j: int| 0 <= j < k implies !(#[trigger] cs[j].0 == Some(pid as u64)
                            && cs[j].1 is Some) by {
                            assert(cs[j] == clients@[j]@);
                        }
                        assert(is_first_window(cs, pid, k as int));
                        assert(t@ == strip_hex_prefix(clients@[k as int]@.1.unwrap()));
                    }
                    return Some(t);
                },
                None => {},
            }
        }
        k = k + 1;
    }
    None
}

/// Why no window could be found for a process.
#[derive(Debug)]
pub enum WindowLookupError {
    /// The client list is not the JSON that was expected.
    Json(serde_json::Error),
    /// No client of the process has an address.
    NotFound(u32),
}

/// The address of the window of process `pid` in the JSON client list that
/// `hyprctl clients -j` prints.
pub fn window_address_for_pid(json: &[u8], pid: u32) -> (r: Result<String, WindowLookupError>)
    ensures
        match clients_from_json(json@) {
            None => r matches Err(WindowLookupError::Json(_)),
            Some(cs) => match r {
                Ok(a) => exists|k: int| is_first_window(cs, pid, k) && a@ == strip_hex_prefix(#[trigger] cs[k].1.unwrap()),
                Err(e) => e matches WindowLookupError::NotFound(p) && p == pid && forall|k: int|
                    0 <= k < cs.len() ==> !(#[trigger] cs[k].0 == Some(pid as u64) && cs[k].1 is Some),
            },
        },
{
    match parse_clients(json) {
        Err(e) => Err(WindowLookupError::Json(e)),
        Ok(clients) => {
            let ghost cs = clients@.map_values(|c: HyprClient| c@);
            match find_client_window(&clients, pid) {
                Some(a) => {
                    proof {
                        let k = choose|k: int|
                            is_first_window(cs, pid, k) && a@ == strip_hex_prefix(#[trigger] clients@[k]@.1.unwrap());
                        assert(cs[k] == clients@[k]@);
                    }
                    Ok(a)
                },
                None => {
                    proof {
                        assert forall|k: int| 0 <= k < cs.len() implies !(#[trigger] cs[k].0 == Some(pid as u64)
                            && cs[k].1 is Some) by {
                            assert(cs[k] == clients@[k]@);
                        }
                    }
                    Err(WindowLookupError::NotFound(pid))
                },
            }
        },
    }
}

/// A character with the Unicode `White_Space` property (the 25 code points of
/// Unicode's PropList), which is what `char::is_whitespace` tests.
pub open spec fn is_whitespace(c: char) -> bool {
    let u = c as u32;
    (0x09 <= u <= 0x0D) || u == 0x20 || u == 0x85 || u == 0xA0 || u == 0x1680 || (0x2000 <= u
        <= 0x200A) || u == 0x2028 || u == 0x2029 || u == 0x202F || u == 0x205F || u == 0x3000
}

/// How many whitespace characters `s` starts with.
pub open spec fn leading_whitespace(s: Seq<char>) -> nat
    decreases s.len(),
{
    if s.len() > 0 && is_whitespace(s[0]) {
        1 + leading_whitespace(s.subrange(1, s.len() as int))
    } else {
        0
    }
}

/// How many whitespace characters `s` ends with.
pub open spec fn trailing_whitespace(s: Seq<char>) -> nat
    decreases s.len(),
{
    if s.len() > 0 && is_whitespace(s[s.len() - 1]) {
        1 + trailing_whitespace(s.subrange(0, s.len() - 1))
    } else {
        0
    }
}

/// A text with its leading and trailing whitespace removed.
pub open spec fn trimmed(s: Seq<char>) -> Seq<char> {
    let start = leading_whitespace(s);
    if start >= s.len() {
        Seq::empty()
    } else {
        s.subrange(start as int, s.len() - trailing_whitespace(s))
    }
}

/// `std`'s `str::trim`.
///
/// Trusted: the contract states the documented behaviour, that the result is
/// the text with its leading and trailing characters of the Unicode
/// `White_Space` property removed.
#[verifier::external_body]
fn trim(s: &str) -> (t: &str)
    ensures
        t@ == trimmed(s@),
{
    s.trim()
}

/// `s` with `prefix` removed from its start, when it starts with it.
pub fn strip_prefix<'a>(s: &'a str, prefix: &str) -> (rest: Option<&'a str>)
    ensures
        prefix@.len() <= s@.len() && s@.subrange(0, prefix@.len() as int) == prefix@ ==> rest is Some
            && rest.unwrap()@ == s@.subrange(prefix@.len() as int, s@.len() as int),
        !(prefix@.len() <= s@.len() && s@.subrange(0, prefix@.len() as int) == prefix@) ==> rest is None,
{
    let n = s.unicode_len();
    let m = prefix.unicode_len();
    if m > n {
        return None;
    }
    let mut i: usize = 0;
    while i < m
        invariant
            n == s@.len(),
            m == prefix@.len(),
            m <= n,
            i <= m,
            forall|j: int| 0 <= j < i ==> #[trigger] s@[j] == prefix@[j],
        decreases m - i,
    {
        if s.get_char(i) != prefix.get_char(i) {
            assert(s@.subrange(0, m as int)[i as int] != prefix@[i as int]);
            return None;
        }
        i = i + 1;
    }
    assert(s@.subrange(0, m as int) =~= prefix@);
    Some(s.substring_char(m, n))
}

/// The prefix of the event line that reports the focused window.
pub open spec fn focus_event_prefix() -> Seq<char> {
    "activewindowv2>>"@
}

/// The window address that an event line reports as focused, if it is a
/// focus event.
pub open spec fn focused_window_of(line: Seq<char>) -> Option<Seq<char>> {
    let t = trimmed(line);
    let p = focus_event_prefix();
    if p.len() <= t.len() && t.subrange(0, p.len() as int) == p {
        Some(t.subrange(p.len() as int, t.len() as int))
    } else {
        None
    }
}

/// The focus flag after an event line, and the change to report: a focus
/// event that changes whether `window` has the focus sets the flag and reports
/// it; any other line changes nothing.
pub open spec fn focus_step(window: Seq<char>, focused: bool, line: Seq<char>) -> (bool, Option<bool>) {
    match focused_window_of(line) {
        Some(addr) => {
            let now = addr == window;
            if now != focused {
                (now, Some(now))
            } else {
                (focused, None)
            }
        },
        None => (focused, None),
    }
}

/// Whether a watched window has the focus, as learned from Hyprland's events.
pub struct FocusState {
    pub window_addr: String,
    pub focused: bool,
}

impl FocusState {
    /// Watches the window at `window_addr`, which starts out unfocused.
    pub fn new(window_addr: String) -> (st: FocusState)
        ensures
            st.window_addr@ == window_addr@,
            !st.focused,
    {
        FocusState { window_addr, focused: false }
    }

    /// Takes one event line. When it is a focus event that changes whether the
    /// watched window has the focus, records and returns the new state.
    pub fn observe(&mut self, line: &str) -> (change: Option<bool>)
        ensures
            final(self).window_addr@ == old(self).window_addr@,
            (final(self).focused, change) == focus_step(old(self).window_addr@, old(self).focused, line@),
    {
        let t = trim(line);
        match strip_prefix(t, "activewindowv2>>") {
            Some(addr) => {
                let now = str_eq(addr, self.window_addr.as_str());
                if now != self.focused {
                    self.focused = now;
                    Some(now)
                } else {
                    None
                }
            },
            None => None,
        }
    }
}

} // verus!
