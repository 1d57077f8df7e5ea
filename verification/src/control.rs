//! The control API on the wire: where a control command connects, the URL
//! it posts to, the status code the server answers a control request with,
//! and what the client makes of that status code.
use vstd::prelude::*;
use crate::cli::{ControlCommand, command_word, control_command_name};
use crate::config::{AppConfig, opt_view};
use crate::deps::first_index;
use crate::text::{chars_of, decimal, find_char_exec, find_char, lemma_find_char_bounds, push_decimal, str_eq};

verus! {

/// The host a client connects to for a listen address: the wildcard
/// addresses become the loopback address of their family.
pub open spec fn connect_host(host: Seq<char>) -> Seq<char> {
    if host == "0.0.0.0"@ {
        "127.0.0.1"@
    } else if host == "::"@ {
        "::1"@
    } else {
        host
    }
}

/// The base URL of a Rally server listening on `host` and `port`; an IPv6
/// host is put in brackets.
pub open spec fn base_url(host: Seq<char>, port: u16) -> Seq<char> {
    let c = connect_host(host);
    if c.contains(':') && !(c.len() > 0 && c[0] == '[') {
        "http://["@ + c + "]:"@ + decimal(port as nat)
    } else {
        "http://"@ + c + ":"@ + decimal(port as nat)
    }
}

/// The host to connect to for the listen address `host`.
pub fn control_connect_host(host: &str) -> (r: String)
    ensures
        r@ == connect_host(host@),
{
    if str_eq(host, "0.0.0.0") {
        String::from_str("127.0.0.1")
    } else if str_eq(host, "::") {
        String::from_str("::1")
    } else {
        String::from_str(host)
    }
}

/// The base URL of the Rally server listening on `host` and `port`.
pub fn control_base_url(host: &str, port: u16) -> (r: String)
    ensures
        r@ == base_url(host@, port),
{
    let connect = control_connect_host(host);
    let v = chars_of(connect.as_str());
    let colon = find_char_exec(&v, ':', 0);
    proof {
        lemma_find_char_bounds(v@, ':', 0);
        if v@.contains(':') {
            let q = choose|q: int| 0 <= q < v@.len() && v@[q] == ':';
            assert(find_char(v@, ':', 0) is Some);
        }
        if colon is Some {
            let q = colon->0 as int;
            assert(v@[q] == ':');
        }
        assert(colon is Some <==> v@.contains(':'));
    }
    let bracketed = v.len() > 0 && v[0] == '[';
    let mut r: String;
    if colon.is_some() && !bracketed {
        r = String::from_str("http://[");
        r.append(connect.as_str());
        r.append("]:");
    } else {
        r = String::from_str("http://");
        r.append(connect.as_str());
        r.append(":");
    }
    push_decimal(&mut r, port as u64);
    r
}

/// ASCII letters, digits and `-`, `.`, `_`, `~`: the characters
/// `urlencoding::encode` leaves as they are.
pub open spec fn is_unreserved(c: char) -> bool {
    ||| ('a' <= c && c <= 'z')
    ||| ('A' <= c && c <= 'Z')
    ||| ('0' <= c && c <= '9')
    ||| c == '-' || c == '.' || c == '_' || c == '~'
}

/// The UTF-8 encoding of one character.
pub open spec fn utf8_bytes(c: char) -> Seq<u8> {
    let n = c as int;
    if n < 0x80 {
        seq![n as u8]
    } else if n < 0x800 {
        seq![(0xC0 + n / 64) as u8, (0x80 + n % 64) as u8]
    } else if n < 0x10000 {
        seq![(0xE0 + n / 4096) as u8, (0x80 + (n / 64) % 64) as u8, (0x80 + n % 64) as u8]
    } else {
        seq![(0xF0 + n / 262144) as u8, (0x80 + (n / 4096) % 64) as u8, (0x80 + (n / 64) % 64) as u8, (0x80 + n % 64) as u8]
    }
}

/// The UTF-8 encoding of a string.
pub open spec fn utf8_of(s: Seq<char>) -> Seq<u8>
    decreases s.len(),
{
    if s.len() == 0 {
        Seq::empty()
    } else {
        utf8_of(s.drop_last()) + utf8_bytes(s.last())
    }
}

/// A byte that is the code of an unreserved character.
pub open spec fn is_unreserved_byte(b: u8) -> bool {
    ||| (0x61 <= b && b <= 0x7A)
    ||| (0x41 <= b && b <= 0x5A)
    ||| (0x30 <= b && b <= 0x39)
    ||| b == 0x2D || b == 0x2E || b == 0x5F || b == 0x7E
}

/// The upper-case hexadecimal digit of `d` (`0 <= d < 16`).
pub open spec fn hex_digit(d: int) -> char {
    if d < 10 {
        (48 + d) as char
    } else {
        (55 + d) as char
    }
}

/// One byte as it appears percent-encoded: an unreserved character as
/// itself, any other byte as `%` and two upper-case hex digits.
pub open spec fn escaped_byte(b: u8) -> Seq<char> {
    if is_unreserved_byte(b) {
        seq![(b as int) as char]
    } else {
        seq!['%', hex_digit(b as int / 16), hex_digit(b as int % 16)]
    }
}

/// Bytes as they appear percent-encoded.
pub open spec fn escaped_bytes(bs: Seq<u8>) -> Seq<char>
    decreases bs.len(),
{
    if bs.len() == 0 {
        Seq::empty()
    } else {
        escaped_bytes(bs.drop_last()) + escaped_byte(bs.last())
    }
}

/// A string percent-encoded byte by byte over its UTF-8 encoding.
pub open spec fn url_encoded(s: Seq<char>) -> Seq<char> {
    escaped_bytes(utf8_of(s))
}

/// `urlencoding::encode`: the UTF-8 bytes of `s`, each unreserved
/// character kept and every other byte written as `%` and two upper-case hex
/// digits (`url_encoded`).
#[verifier::external_body]
fn url_encode(s: &str) -> (r: String)
    ensures
        r@ == url_encoded(s@),
{
    urlencoding::encode(s).into_owned()
}

/// A string of unreserved characters is its own encoding.
pub proof fn unreserved_text_is_unchanged(s: Seq<char>)
    requires
        forall|i: int| 0 <= i < s.len() ==> is_unreserved(#[trigger] s[i]),
    ensures
        url_encoded(s) == s,
    decreases s.len(),
{
    if s.len() > 0 {
        let c = s.last();
        let t = s.drop_last();
        assert forall|i: int| 0 <= i < t.len() implies is_unreserved(#[trigger] t[i]) by {
            assert(t[i] == s[i]);
        }
        unreserved_text_is_unchanged(t);
        assert(is_unreserved(s[s.len() - 1]));
        let n = c as int;
        assert(n < 0x80);
        let b = n as u8;
        assert(b as int == n);
        assert(utf8_bytes(c) == seq![b]);
        assert(is_unreserved_byte(b));
        assert(((b as int) as char) == c);
        let u = utf8_of(s);
        assert(u == utf8_of(t) + seq![b]);
        assert(u.drop_last() =~= utf8_of(t));
        assert(u.last() == b);
        assert(escaped_bytes(u) == escaped_bytes(utf8_of(t)) + seq![c]);
        assert(t + seq![c] =~= s);
    } else {
        assert(utf8_of(s) =~= Seq::<u8>::empty());
        assert(s =~= Seq::<char>::empty());
    }
}

/// The URL a control command posts to.
pub open spec fn control_url_of(base: Seq<char>, command: ControlCommand, app_name: Seq<char>) -> Seq<char> {
    base + "/api/"@ + command_word(command) + "/"@ + url_encoded(app_name)
}

/// The URL that `command` for the app `app_name` posts to on the server at
/// `base`: `{base}/api/{command}/{app name, percent-encoded}`.
pub fn control_url(base: &str, command: ControlCommand, app_name: &str) -> (r: String)
    ensures
        r@ == control_url_of(base@, command, app_name@),
        (forall|i: int| 0 <= i < app_name@.len() ==> is_unreserved(#[trigger] app_name@[i])) ==>
            r@ == base@ + "/api/"@ + command_word(command) + "/"@ + app_name@,
{
    let mut r = String::from_str(base);
    r.append("/api/");
    r.append(control_command_name(command));
    r.append("/");
    let encoded = url_encode(app_name);
    r.append(encoded.as_str());
    proof {
        if forall|i: int| 0 <= i < app_name@.len() ==> is_unreserved(#[trigger] app_name@[i]) {
            unreserved_text_is_unchanged(app_name@);
        }
    }
    r
}

/// How the server answers a control request.
#[derive(Debug, Clone, Copy, PartialEq, Eq, Structural)]
pub enum ControlResult {
    /// The command was carried out.
    Accepted,
    /// No app has that name.
    NotFound,
    /// The app is disabled.
    Disabled,
}

/// The HTTP status code of a control answer.
pub open spec fn status_code_of(r: ControlResult) -> u16 {
    match r {
        ControlResult::Accepted => 200,
        ControlResult::NotFound => 404,
        ControlResult::Disabled => 409,
    }
}

/// The status code the server answers a control request with: 200, 404
/// when no app has the name, 409 when the app is disabled.
pub fn control_status_code(r: ControlResult) -> (code: u16)
    ensures
        code == status_code_of(r),
{
    match r {
        ControlResult::Accepted => 200,
        ControlResult::NotFound => 404,
        ControlResult::Disabled => 409,
    }
}

/// The status code of a request about a named app that needs no more than
/// the app to exist (enable, disable, kill, clear logs): 200, or 404.
pub fn found_status_code(found: bool) -> (code: u16)
    ensures
        code == (if found { 200u16 } else { 404u16 }),
{
    if found { 200 } else { 404 }
}

/// Why the server refused a control command.
#[derive(Debug)]
pub enum ControlError {
    /// No app of the running instance has this name.
    NotFound { app: String },
    /// The app is disabled.
    Disabled { app: String, command: ControlCommand },
    /// Any other status code.
    Rejected { command: ControlCommand, app: String, status: u16 },
}

/// What a control reply means, as values.
pub enum ReplyFault {
    NotFound(Seq<char>),
    Disabled(Seq<char>, ControlCommand),
    Rejected(ControlCommand, Seq<char>, u16),
}

impl ControlError {
    /// The refusal this error reports.
    pub open spec fn fault(&self) -> ReplyFault {
        match self {
            ControlError::NotFound { app } => ReplyFault::NotFound(app@),
            ControlError::Disabled { app, command } => ReplyFault::Disabled(app@, *command),
            ControlError::Rejected { command, app, status } => ReplyFault::Rejected(*command, app@, *status),
        }
    }
}

/// What the client makes of the status code of its control request.
pub open spec fn reply_outcome(status: u16, command: ControlCommand, app: Seq<char>) -> Result<(), ReplyFault> {
    if status == 200 {
        Ok(())
    } else if status == 404 {
        Err(ReplyFault::NotFound(app))
    } else if status == 409 {
        Err(ReplyFault::Disabled(app, command))
    } else {
        Err(ReplyFault::Rejected(command, app, status))
    }
}

/// What the client makes of the status code the server answered `command`
/// for `app` with: success on 200, not found on 404, disabled on 409, and a
/// rejection with the status otherwise.
pub fn control_reply(status: u16, command: ControlCommand, app: &str) -> (r: Result<(), ControlError>)
    ensures
        match r {
            Ok(()) => reply_outcome(status, command, app@) == Ok::<(), ReplyFault>(()),
            Err(e) => reply_outcome(status, command, app@) == Err::<(), ReplyFault>(e.fault()),
        },
{
    if status == 200 {
        Ok(())
    } else if status == 404 {
        Err(ControlError::NotFound { app: String::from_str(app) })
    } else if status == 409 {
        Err(ControlError::Disabled { app: String::from_str(app), command })
    } else {
        Err(ControlError::Rejected { command, app: String::from_str(app), status })
    }
}

/// The client reads the server's answer back as the server meant it: a
/// carried-out command as success, an unknown app as not found, a disabled
/// app as disabled.
pub proof fn control_reply_round_trip(r: ControlResult, command: ControlCommand, app: Seq<char>)
    ensures
        (r == ControlResult::Accepted) <==> reply_outcome(status_code_of(r), command, app) is Ok,
        (r == ControlResult::NotFound) <==> reply_outcome(status_code_of(r), command, app) == Err::<(), ReplyFault>(ReplyFault::NotFound(app)),
        (r == ControlResult::Disabled) <==> reply_outcome(status_code_of(r), command, app) == Err::<(), ReplyFault>(ReplyFault::Disabled(app, command)),
{
}

/// The reason phrase `http::StatusCode` gives a status code, if it has one.
pub uninterp spec fn reason_phrase(code: u16) -> Option<Seq<char>>;

/// `http::StatusCode::canonical_reason` of the status code `code` (which
/// `StatusCode::from_u16` accepts for 100 to 999): the result is
/// `reason_phrase(code)`; the table of phrases is not stated.
#[verifier::external_body]
fn canonical_reason(code: u16) -> (r: Option<String>)
    requires
        100 <= code <= 999,
    ensures
        opt_view(r) == reason_phrase(code),
{
    match reqwest::StatusCode::from_u16(code) {
        Ok(status) => status.canonical_reason().map(|s| s.to_owned()),
        Err(_) => None,
    }
}

/// How `http::StatusCode` displays: the number, a space and the reason phrase.
pub open spec fn status_display(code: u16) -> Seq<char> {
    decimal(code as nat) + " "@ + match reason_phrase(code) {
        Some(p) => p,
        None => "<unknown status code>"@,
    }
}

/// The message of a refusal.
pub open spec fn reply_message(f: ReplyFault) -> Seq<char> {
    match f {
        ReplyFault::NotFound(app) => "App "@ + app + " was not found in the running Rally instance"@,
        ReplyFault::Disabled(app, command) => "App "@ + app + " is disabled; enable it before using "@ + command_word(command),
        ReplyFault::Rejected(command, app, status) => "Rally rejected "@ + command_word(command) + " for "@ + app
            + " with status "@ + status_display(status),
    }
}

impl ControlError {
    /// The message the client reports for this refusal.
    pub fn message(&self) -> (m: String)
        requires
            self matches ControlError::Rejected { status, .. } ==> 100 <= *status <= 999,
        ensures
            m@ == reply_message(self.fault()),
    {
        match self {
            ControlError::NotFound { app } => {
                let mut m = String::from_str("App ");
                m.append(app.as_str());
                m.append(" was not found in the running Rally instance");
                m
            },
            ControlError::Disabled { app, command } => {
                let mut m = String::from_str("App ");
                m.append(app.as_str());
                m.append(" is disabled; enable it before using ");
                m.append(control_command_name(*command));
                m
            },
            ControlError::Rejected { command, app, status } => {
                let mut m = String::from_str("Rally rejected ");
                m.append(control_command_name(*command));
                m.append(" for ");
                m.append(app.as_str());
                m.append(" with status ");
                push_decimal(&mut m, *status as u64);
                m.append(" ");
                match canonical_reason(*status) {
                    Some(p) => m.append(p.as_str()),
                    None => m.append("<unknown status code>"),
                }
                m
            },
        }
    }
}


/// The runtime enabled flag of each app of a running instance, by position.
/// It starts from each app's `enabled` setting (so a reload resets it) and
/// changes one app at a time.
pub struct AppSwitches {
    names: Vec<String>,
    enabled: Vec<bool>,
}

impl AppSwitches {
    /// Every app has a flag.
    #[verifier::type_invariant]
    spec fn flags_match(&self) -> bool {
        self.names.len() == self.enabled.len()
    }

    /// The app names, by position.
    pub closed spec fn app_names(&self) -> Seq<Seq<char>> {
        self.names@.map_values(|n: String| n@)
    }

    /// The flags, by position.
    pub closed spec fn flags(&self) -> Seq<bool> {
        self.enabled@
    }

    /// The position of the app a name refers to: the first app with that name.
    pub open spec fn position_of(&self, name: Seq<char>) -> int {
        first_index(self.app_names(), name, 0)
    }

    /// The flags of the apps of a (re)loaded config: each app's `enabled` setting.
    pub fn from_config(apps: &Vec<AppConfig>) -> (s: Self)
        ensures
            s.app_names() == crate::deps::app_names(apps@),
            s.flags() == apps@.map_values(|a: AppConfig| a.enabled),
            s.flags().len() == s.app_names().len(),
    {
        let mut names: Vec<String> = Vec::new();
        let mut enabled: Vec<bool> = Vec::new();
        let mut i: usize = 0;
        while i < apps.len()
            invariant
                i <= apps.len(),
                names.len() == i,
                enabled.len() == i,
                forall|q: int| 0 <= q < i ==> #[trigger] names@[q]@ == apps@[q].name@,
                forall|q: int| 0 <= q < i ==> #[trigger] enabled@[q] == apps@[q].enabled,
            decreases apps.len() - i,
        {
            names.push(apps[i].name.clone());
            enabled.push(apps[i].enabled);
            i = i + 1;
        }
        let s = AppSwitches { names, enabled };
        assert(s.app_names() =~= crate::deps::app_names(apps@));
        assert(s.flags() =~= apps@.map_values(|a: AppConfig| a.enabled));
        s
    }

    /// The position of the first app named `name`, if any.
    pub fn position(&self, name: &str) -> (r: Option<usize>)
        ensures
            match r {
                Some(i) => i as int == self.position_of(name@) && i < self.app_names().len(),
                None => self.position_of(name@) == self.app_names().len(),
            },
    {
        proof {
            use_type_invariant(self);
        }
        let ghost ns = self.app_names();
        let mut i: usize = 0;
        while i < self.names.len()
            invariant
                i <= self.names@.len(),
                ns == self.app_names(),
                ns.len() == self.names@.len(),
                first_index(ns, name@, 0) == first_index(ns, name@, i as int),
            decreases self.names@.len() - i,
        {
            if crate::text::str_eq(self.names[i].as_str(), name) {
                assert(ns[i as int] == name@);
                return Some(i);
            }
            i = i + 1;
        }
        None
    }

    /// Sets the flag of the app named `name`, leaving every other app's flag
    /// as it is; `false` when no app has that name.
    pub fn set_enabled_by_name(&mut self, name: &str, enabled: bool) -> (found: bool)
        ensures
            final(self).app_names() == old(self).app_names(),
            final(self).flags().len() == final(self).app_names().len(),
            found == (old(self).position_of(name@) < old(self).app_names().len()),
            found ==> final(self).flags() == old(self).flags().update(old(self).position_of(name@), enabled),
            !found ==> final(self).flags() == old(self).flags(),
    {
        proof {
            use_type_invariant(&*self);
        }
        match self.position(name) {
            Some(i) => {
                let mut flags: Vec<bool> = Vec::new();
                let mut k: usize = 0;
                while k < self.enabled.len()
                    invariant
                        k <= self.enabled@.len(),
                        i < self.enabled@.len(),
                        forall|q: int| 0 <= q < k ==> #[trigger] flags@[q] == (if q == i { enabled } else { self.enabled@[q] }),
                        flags@.len() == k,
                    decreases self.enabled@.len() - k,
                {
                    if k == i {
                        flags.push(enabled);
                    } else {
                        flags.push(self.enabled[k]);
                    }
                    k = k + 1;
                }
                assert(flags@ =~= old(self).enabled@.update(i as int, enabled));
                self.enabled = flags;
                true
            },
            None => false,
        }
    }

    /// Whether a control command may act on the app named `name`: not found
    /// when no app has the name, refused while its flag is off, accepted otherwise.
    pub fn check(&self, name: &str) -> (r: ControlResult)
        ensures
            self.position_of(name@) >= self.app_names().len() ==> r == ControlResult::NotFound,
            self.position_of(name@) < self.app_names().len() ==> r == (if self.flags()[self.position_of(name@)] {
                ControlResult::Accepted
            } else {
                ControlResult::Disabled
            }),
    {
        proof {
            use_type_invariant(self);
        }
        match self.position(name) {
            None => ControlResult::NotFound,
            Some(i) => if self.enabled[i] {
                ControlResult::Accepted
            } else {
                ControlResult::Disabled
            },
        }
    }
}

impl AppSwitches {
    /// The apps of `order` whose flag is on, in that order: what a start of
    /// every app starts.
    pub fn enabled_in(&self, order: &Vec<usize>) -> (r: Vec<usize>)
        ensures
            r@ == order@.filter(|i: usize| (i as int) < self.flags().len() && self.flags()[i as int]),
    {
        proof {
            use_type_invariant(self);
        }
        let ghost keep = |i: usize| (i as int) < self.flags().len() && self.flags()[i as int];
        let mut r: Vec<usize> = Vec::new();
        let mut k: usize = 0;
        while k < order.len()
            invariant
                k <= order@.len(),
                self.flags().len() == self.enabled@.len(),
                keep == (|i: usize| (i as int) < self.flags().len() && self.flags()[i as int]),
                r@ == order@.take(k as int).filter(keep),
            decreases order@.len() - k,
        {
            let i = order[k];
            proof {
                assert(order@.take(k + 1).drop_last() =~= order@.take(k as int));
                order@.take(k as int).lemma_filter_push(i, keep);
                assert(order@.take(k as int).push(i) =~= order@.take(k + 1));
            }
            if i < self.enabled.len() && self.enabled[i] {
                r.push(i);
            }
            k = k + 1;
        }
        assert(order@.take(k as int) =~= order@);
        r
    }
}

/// Turning one app on or off leaves every other app's flag as it was, and
/// a command for the app it turned off is then refused as disabled.
pub proof fn switching_affects_only_that_app(flags: Seq<bool>, p: int, enabled: bool)
    requires
        0 <= p < flags.len(),
    ensures
        forall|j: int| 0 <= j < flags.len() && j != p ==> #[trigger] flags.update(p, enabled)[j] == flags[j],
        flags.update(p, enabled)[p] == enabled,
{
}

} // verus!
