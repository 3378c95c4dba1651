//! The wireless-debugging helper plugin: pairing credentials, the
//! command grammar it accepts over the byte interface, the parser for
//! the device lines an `adb mdns services` scan prints, and the pure
//! decisions around those — everything except running the `adb`
//! process itself, which the host does.

use vstd::prelude::*;
use vstd::string::*;
use crate::adapter::{FromBytes, IntoBytes};
use crate::search::{lower_of, lowercase, str_chars};

verus! {

/// Relies on `rand::random_range` over `0..n`: the result is uniformly
/// drawn and always below `n` (the range must not be empty).
#[verifier::external_body]
fn random_below(n: usize) -> (r: usize)
    requires
        n > 0,
    ensures
        r < n,
{
    rand::random_range(0..n)
}

/// Relies on `String::push`: appends the one character.
#[verifier::external_body]
fn push_char(s: &mut String, c: char)
    ensures
        final(s)@ == old(s)@.push(c),
{
    s.push(c)
}

/// First index at or after `from` where `needle` occurs in `hay`.
pub open spec fn spec_match_at(hay: Seq<char>, needle: Seq<char>, i: int) -> bool {
    0 <= i && i + needle.len() <= hay.len() && hay.subrange(i, i + needle.len()) == needle
}

/// Position of the first occurrence of `needle` in `hay`, if any.
pub open spec fn spec_first_match_from(hay: Seq<char>, needle: Seq<char>, from: int) -> Option<
    int,
>
    decreases hay.len() - from + 1,
{
    if from + needle.len() > hay.len() {
        None
    } else if spec_match_at(hay, needle, from) {
        Some(from)
    } else {
        spec_first_match_from(hay, needle, from + 1)
    }
}

/// Search for the first occurrence of `needle` at or after `from`.
#[verifier::loop_isolation(false)]
fn first_match_from(hay: &Vec<char>, needle: &Vec<char>, from: usize) -> (r: Option<usize>)
    requires
        from <= hay@.len(),
    ensures
        match r {
            Some(i) => from <= i && spec_first_match_from(hay@, needle@, from as int) == Some(
                i as int,
            ),
            None => spec_first_match_from(hay@, needle@, from as int) is None,
        },
{
    let n = hay.len();
    let m = needle.len();
    if m > n {
        return None;
    }
    let mut i = from;
    while i <= n - m
        invariant
            m <= n,
            from <= i <= n,
            spec_first_match_from(hay@, needle@, from as int) == spec_first_match_from(
                hay@,
                needle@,
                i as int,
            ),
        decreases n - i,
    {
        proof {
            assert(hay@.subrange(i as int, i as int) =~= needle@.subrange(0, 0));
        }
        let mut j: usize = 0;
        let mut matches = true;
        while j < m
            invariant
                j <= m,
                i + m <= n,
                matches == (hay@.subrange(i as int, i + j) == needle@.subrange(0, j as int)),
            decreases m - j,
        {
            let ghost hpre = hay@.subrange(i as int, i + j);
            let ghost npre = needle@.subrange(0, j as int);
            if hay[i + j] != needle[j] {
                matches = false;
                proof {
                    assert(hay@.subrange(i as int, i + j + 1)[j as int] != needle@.subrange(
                        0,
                        j + 1,
                    )[j as int]);
                }
            } else {
                proof {
                    assert(hay@.subrange(i as int, i + j + 1) =~= hpre.push(hay@[i + j]));
                    assert(needle@.subrange(0, j + 1) =~= npre.push(needle@[j as int]));
                    if matches {
                        assert(hay@.subrange(i as int, i + j + 1) == needle@.subrange(0, j + 1));
                    }
                }
                if !matches {
                    proof {
                        if hay@.subrange(i as int, i + j + 1) == needle@.subrange(0, j + 1) {
                            assert(hay@.subrange(i as int, i + j) =~= hay@.subrange(
                                i as int,
                                i + j + 1,
                            ).drop_last());
                            assert(needle@.subrange(0, j as int) =~= needle@.subrange(
                                0,
                                j + 1,
                            ).drop_last());
                        }
                    }
                }
            }
            j = j + 1;
        }
        if matches {
            proof {
                assert(needle@.subrange(0, m as int) =~= needle@);
                assert(spec_match_at(hay@, needle@, i as int));
            }
            return Some(i);
        }
        proof {
            assert(needle@.subrange(0, m as int) =~= needle@);
            assert(!spec_match_at(hay@, needle@, i as int));
        }
        i = i + 1;
    }
    None
}

/// Does `needle` occur anywhere in `hay`?
pub open spec fn spec_contains(hay: Seq<char>, needle: Seq<char>) -> bool {
    spec_first_match_from(hay, needle, 0) is Some
}

fn contains_seq(hay: &Vec<char>, needle: &Vec<char>) -> (r: bool)
    ensures
        r == spec_contains(hay@, needle@),
{
    matches!(first_match_from(hay, needle, 0), Some(_))
}

/// Does `s` start with `prefix`?
pub open spec fn spec_starts_with(s: Seq<char>, prefix: Seq<char>) -> bool {
    prefix.len() <= s.len() && s.subrange(0, prefix.len() as int) == prefix
}

/// A healthy `adb mdns check` reply names the mdns daemon version.
pub fn check_output_ok(reply: &str) -> (r: bool)
    ensures
        r == spec_contains(reply@, "mdns daemon version"@),
{
    let hay = str_chars(reply);
    let needle = str_chars("mdns daemon version");
    contains_seq(&hay, &needle)
}

/// A successful `adb connect` reply starts with "connected to".
pub fn connect_reply_ok(reply: &str) -> (r: bool)
    ensures
        r == spec_starts_with(reply@, "connected to"@),
{
    starts_with_str(reply, "connected to")
}

/// A successful `adb pair` reply starts with "Successfully paired to".
pub fn pair_reply_ok(reply: &str) -> (r: bool)
    ensures
        r == spec_starts_with(reply@, "Successfully paired to"@),
{
    starts_with_str(reply, "Successfully paired to")
}

fn starts_with_str(s: &str, prefix: &str) -> (r: bool)
    ensures
        r == spec_starts_with(s@, prefix@),
{
    let sc = str_chars(s);
    let pc = str_chars(prefix);
    let n = sc.len();
    let m = pc.len();
    if m > n {
        return false;
    }
    let mut j: usize = 0;
    while j < m
        invariant
            j <= m <= n,
            sc@ == s@,
            pc@ == prefix@,
            n == s@.len(),
            m == prefix@.len(),
            s@.subrange(0, j as int) == prefix@.subrange(0, j as int),
        decreases m - j,
    {
        let ghost spre = s@.subrange(0, j as int);
        let ghost ppre = prefix@.subrange(0, j as int);
        if sc[j] != pc[j] {
            proof {
                assert(s@.subrange(0, prefix@.len() as int)[j as int] == s@[j as int]);
            }
            return false;
        }
        proof {
            assert(s@.subrange(0, j + 1) =~= spre.push(s@[j as int]));
            assert(prefix@.subrange(0, j + 1) =~= ppre.push(prefix@[j as int]));
        }
        j = j + 1;
    }
    proof {
        assert(prefix@.subrange(0, m as int) =~= prefix@);
        assert(s@.subrange(0, m as int) == prefix@);
    }
    true
}

/// The fixed alphabet random pairing credentials are drawn from.
pub open spec fn spec_pwd_charset() -> Seq<char> {
    "abcdefghijklmnopqrstuvwxyzABCDEFGHIJKLMNOPQRSTUVWXYZ0123456789!@#$%^&*()-+*/<>{}"@
}

/// Mathematical value of a [`PairInfo`].
#[verifier::ext_equal]
pub ghost struct PairInfoView {
    pub server: Seq<char>,
    pub pwd: Seq<char>,
}

/// Credentials for one wireless-debugging pairing: the service name
/// the device should see and the pairing password.
pub struct PairInfo {
    pub server: String,
    pub pwd: String,
}

impl View for PairInfo {
    type V = PairInfoView;

    open spec fn view(&self) -> PairInfoView {
        PairInfoView { server: self.server@, pwd: self.pwd@ }
    }
}

impl PairInfo {
    /// Fresh random credentials: a service name of ten random
    /// characters behind the tool prefix, and a twelve-character
    /// password.
    pub fn new() -> (r: Self)
        ensures
            r@.server.len() == 17,
            spec_starts_with(r@.server, "studio-"@),
            forall|k: int| 7 <= k < r@.server.len() ==> spec_pwd_charset().contains(
                #[trigger] r@.server[k],
            ),
            r@.pwd.len() == 12,
            forall|k: int| 0 <= k < r@.pwd.len() ==> spec_pwd_charset().contains(
                #[trigger] r@.pwd[k],
            ),
    {
        proof {
            reveal_strlit("studio-");
        }
        let mut server = "studio-".to_owned();
        let suffix = Self::len_str(10);
        server.append(suffix.as_str());
        let pwd = Self::len_str(12);
        proof {
            assert(server@.subrange(0, 7) =~= "studio-"@);
            assert forall|k: int| 7 <= k < server@.len() implies spec_pwd_charset().contains(
                #[trigger] server@[k],
            ) by {
                assert(server@[k] == suffix@[k - 7]);
            }
        }
        PairInfo { server, pwd }
    }

    /// Credentials supplied by the caller.
    pub fn from(server: &str, pwd: &str) -> (r: Self)
        ensures
            r@.server == server@,
            r@.pwd == pwd@,
    {
        PairInfo { server: server.to_owned(), pwd: pwd.to_owned() }
    }

    pub fn get_server(&self) -> (r: &str)
        ensures
            r@ == self@.server,
    {
        self.server.as_str()
    }

    pub fn get_pwd(&self) -> (r: &str)
        ensures
            r@ == self@.pwd,
    {
        self.pwd.as_str()
    }

    /// The pairing QR payload in the format wireless debugging scans:
    /// `WIFI:T:ADB;S:{server};P:{pwd};;`.
    pub fn generate(&self) -> (r: String)
        ensures
            r@ == "WIFI:T:ADB;S:"@ + self@.server + ";P:"@ + self@.pwd + ";;"@,
    {
        let mut r = "WIFI:T:ADB;S:".to_owned();
        r.append(self.server.as_str());
        r.append(";P:");
        r.append(self.pwd.as_str());
        r.append(";;");
        r
    }

    /// `len` characters drawn from the password alphabet.
    /// `len` characters, each drawn from the fixed alphabet.
    fn len_str(len: usize) -> (r: String)
        ensures
            r@.len() == len as nat,
            forall|k: int| 0 <= k < r@.len() ==> spec_pwd_charset().contains(#[trigger] r@[k]),
    {
        let charset = str_chars(
            "abcdefghijklmnopqrstuvwxyzABCDEFGHIJKLMNOPQRSTUVWXYZ0123456789!@#$%^&*()-+*/<>{}",
        );
        proof {
            reveal_strlit(
                "abcdefghijklmnopqrstuvwxyzABCDEFGHIJKLMNOPQRSTUVWXYZ0123456789!@#$%^&*()-+*/<>{}",
            );
        }
        let mut r = String::new();
        let mut i: usize = 0;
        while i < len
            invariant
                i <= len,
                charset@ == spec_pwd_charset(),
                charset@.len() > 0,
                r@.len() == i as nat,
                forall|k: int| 0 <= k < i ==> spec_pwd_charset().contains(#[trigger] r@[k]),
            decreases len - i,
        {
            let k = random_below(charset.len());
            push_char(&mut r, charset[k]);
            i = i + 1;
        }
        r
    }
}

impl Default for PairInfo {
    fn default() -> (r: Self)
        ensures
            r@.server.len() == 17,
            spec_starts_with(r@.server, "studio-"@),
            forall|k: int| 7 <= k < r@.server.len() ==> spec_pwd_charset().contains(
                #[trigger] r@.server[k],
            ),
            r@.pwd.len() == 12,
            forall|k: int| 0 <= k < r@.pwd.len() ==> spec_pwd_charset().contains(
                #[trigger] r@.pwd[k],
            ),
    {
        PairInfo::new()
    }
}

impl Clone for PairInfo {
    fn clone(&self) -> (r: Self)
        ensures
            r@ == self@,
    {
        PairInfo { server: self.server.clone(), pwd: self.pwd.clone() }
    }
}

/// What one connect-side operation came to.
pub enum ConnectResult {
    /// The device is connected.
    ConnectSuccess,
    /// The operation failed; the payload says why.
    Error(String),
    /// The raw listing a service scan printed.
    List(String),
}

/// What a command answers over the byte interface.
pub enum AdbResult {
    Success(String),
    Fail(String),
}

/// Mathematical value of an [`AdbResult`].
pub ghost enum AdbResultView {
    Success(Seq<char>),
    Fail(Seq<char>),
}

impl View for AdbResult {
    type V = AdbResultView;

    open spec fn view(&self) -> AdbResultView {
        match self {
            AdbResult::Success(s) => AdbResultView::Success(s@),
            AdbResult::Fail(s) => AdbResultView::Fail(s@),
        }
    }
}

impl AdbResult {
    /// A connect result, folded onto the two-valued answer shape.
    pub fn from_connect(value: ConnectResult) -> (r: AdbResult)
        ensures
            match value {
                ConnectResult::ConnectSuccess => r@ == AdbResultView::Success("success"@),
                ConnectResult::Error(e) => r@ == AdbResultView::Fail(e@),
                ConnectResult::List(l) => r@ == AdbResultView::Success(l@),
            },
    {
        match value {
            ConnectResult::ConnectSuccess => AdbResult::Success("success".to_owned()),
            ConnectResult::Error(e) => AdbResult::Fail(e),
            ConnectResult::List(l) => AdbResult::Success(l),
        }
    }
}

impl IntoBytes for AdbResult {
    /// A success is sent as `success: {text}`, a failure as its bare
    /// message, both UTF-8 encoded.
    open spec fn encode_spec(v: AdbResultView) -> Seq<u8> {
        match v {
            AdbResultView::Success(s) => vstd::utf8::encode_utf8("success: "@ + s),
            AdbResultView::Fail(s) => vstd::utf8::encode_utf8(s),
        }
    }

    fn encode(self) -> (r: Vec<u8>) {
        match self {
            AdbResult::Success(s) => {
                let mut t = "success: ".to_owned();
                t.append(s.as_str());
                t.as_str().as_bytes_vec()
            },
            AdbResult::Fail(s) => s.as_str().as_bytes_vec(),
        }
    }
}

/// Relies on `String::from_utf8`: succeeds exactly on valid UTF-8 and
/// returns its decoding.
#[verifier::external_body]
fn utf8_to_string(b: Vec<u8>) -> (r: Option<String>)
    ensures
        match r {
            Some(s) => vstd::utf8::valid_utf8(b@) && s@ == vstd::utf8::decode_utf8(b@),
            None => !vstd::utf8::valid_utf8(b@),
        },
{
    match String::from_utf8(b) {
        Ok(s) => Some(s),
        Err(_) => None,
    }
}

/// The Unicode white-space characters (the `White_Space` property, as
/// `char::is_whitespace` recognizes them).
pub open spec fn spec_is_space(c: char) -> bool {
    let u = c as u32;
    u == 0x20 || (0x9 <= u && u <= 0xD) || u == 0x85 || u == 0xA0 || u == 0x1680 || (0x2000 <= u
        && u <= 0x200A) || u == 0x2028 || u == 0x2029 || u == 0x202F || u == 0x205F || u == 0x3000
}

fn is_space(c: char) -> (r: bool)
    ensures
        r == spec_is_space(c),
{
    let u = c as u32;
    u == 0x20 || (0x9 <= u && u <= 0xD) || u == 0x85 || u == 0xA0 || u == 0x1680 || (0x2000 <= u
        && u <= 0x200A) || u == 0x2028 || u == 0x2029 || u == 0x202F || u == 0x205F || u == 0x3000
}

/// The white-space-separated tokens of `s`, in order, empty tokens
/// dropped.
pub open spec fn spec_split_ws(s: Seq<char>) -> Seq<Seq<char>>
    decreases s.len(),
{
    if s.len() == 0 {
        Seq::empty()
    } else {
        let prefix = s.drop_last();
        let c = s.last();
        let rest = spec_split_ws(prefix);
        if spec_is_space(c) {
            rest
        } else if prefix.len() > 0 && !spec_is_space(prefix.last()) {
            rest.update(rest.len() - 1, rest.last().push(c))
        } else {
            rest.push(seq![c])
        }
    }
}

/// The tokens named by a sequence of index ranges into `s`.
pub open spec fn spec_bounds_tokens(bs: Seq<(usize, usize)>, s: Seq<char>) -> Seq<Seq<char>> {
    bs.map_values(|b: (usize, usize)| s.subrange(b.0 as int, b.1 as int))
}

/// Split into white-space-separated tokens, returned as index ranges
/// into the input.
#[verifier::loop_isolation(false)]
fn split_ws_bounds(chars: &Vec<char>) -> (r: Vec<(usize, usize)>)
    ensures
        forall|k: int| 0 <= k < r@.len() ==> (#[trigger] r@[k]).0 < r@[k].1 <= chars@.len(),
        spec_bounds_tokens(r@, chars@) == spec_split_ws(chars@),
{
    let n = chars.len();
    let mut bounds: Vec<(usize, usize)> = Vec::new();
    let mut in_token = false;
    let mut i: usize = 0;
    while i < n
        invariant
            i <= n,
            n == chars@.len(),
            in_token == (i > 0 && !spec_is_space(chars@[i - 1])),
            forall|k: int| 0 <= k < bounds@.len() ==> (#[trigger] bounds@[k]).0 < bounds@[k].1
                <= i,
            in_token ==> bounds@.len() > 0 && bounds@.last().1 == i,
            spec_bounds_tokens(bounds@, chars@) == spec_split_ws(chars@.take(i as int)),
        decreases n - i,
    {
        let ghost prev_bounds = bounds@;
        let c = chars[i];
        let sp = is_space(c);
        if !sp {
            if in_token {
                let li = bounds.len() - 1;
                let last = bounds[li];
                bounds.set(li, (last.0, i + 1));
            } else {
                bounds.push((i, i + 1));
            }
        }
        proof {
            let t = chars@.take(i + 1);
            assert(t.drop_last() =~= chars@.take(i as int));
            assert(t.last() == chars@[i as int]);
            let rest = spec_split_ws(chars@.take(i as int));
            if spec_is_space(chars@[i as int]) {
                assert(spec_bounds_tokens(bounds@, chars@) == rest);
            } else if in_token {
                let li = prev_bounds.len() - 1;
                assert(chars@.take(i as int).last() == chars@[i - 1]);
                assert(chars@.subrange(prev_bounds[li].0 as int, i + 1) =~= chars@.subrange(
                    prev_bounds[li].0 as int,
                    i as int,
                ).push(chars@[i as int]));
                assert(spec_bounds_tokens(bounds@, chars@) =~= rest.update(
                    rest.len() - 1,
                    rest.last().push(chars@[i as int]),
                ));
            } else {
                assert(chars@.subrange(i as int, i + 1) =~= seq![chars@[i as int]]);
                assert(spec_bounds_tokens(bounds@, chars@) =~= rest.push(
                    seq![chars@[i as int]],
                ));
            }
        }
        if !sp {
            in_token = true;
        } else {
            in_token = false;
        }
        i = i + 1;
    }
    proof {
        assert(chars@.take(n as int) =~= chars@);
    }
    bounds
}

/// Are two pieces of text the same sequence of characters?
fn str_eq(a: &str, b: &str) -> (r: bool)
    ensures
        r == (a@ == b@),
{
    if a.unicode_len() != b.unicode_len() {
        return false;
    }
    let r = starts_with_str(a, b);
    proof {
        assert(a@.subrange(0, b@.len() as int) =~= a@);
    }
    r
}

/// A command of the wireless-debugging plugin, as decoded from a call
/// payload.
pub enum AdbCommand {
    /// Connect to an already-paired device found by the scan.
    Connect,
    /// Disconnect everything.
    Disconnect,
    /// Pair with the given service and password, then connect.
    Pair(PairInfo),
    /// Answer with freshly generated pairing credentials.
    Generate,
    /// List the scanned services.
    List,
}

/// Mathematical value of an [`AdbCommand`].
#[verifier::ext_equal]
pub ghost enum AdbCommandView {
    Connect,
    Disconnect,
    Pair(PairInfoView),
    Generate,
    List,
}

impl View for AdbCommand {
    type V = AdbCommandView;

    open spec fn view(&self) -> AdbCommandView {
        match self {
            AdbCommand::Connect => AdbCommandView::Connect,
            AdbCommand::Disconnect => AdbCommandView::Disconnect,
            AdbCommand::Pair(p) => AdbCommandView::Pair(p@),
            AdbCommand::Generate => AdbCommandView::Generate,
            AdbCommand::List => AdbCommandView::List,
        }
    }
}

/// The command grammar, over lowercased text: one of the four fixed
/// words, or `pair {server} {password}` in three white-space-separated
/// tokens.
pub open spec fn spec_parse_cmd(t: Seq<char>) -> Option<AdbCommandView> {
    if t == "connect"@ {
        Some(AdbCommandView::Connect)
    } else if t == "disconnect"@ {
        Some(AdbCommandView::Disconnect)
    } else if t == "generate"@ {
        Some(AdbCommandView::Generate)
    } else if t == "list"@ {
        Some(AdbCommandView::List)
    } else {
        let parts = spec_split_ws(t);
        if parts.len() == 3 && parts[0] == "pair"@ {
            Some(AdbCommandView::Pair(PairInfoView { server: parts[1], pwd: parts[2] }))
        } else {
            None
        }
    }
}

impl FromBytes for AdbCommand {
    /// A payload decodes when it is UTF-8 and its lowercase form fits
    /// the command grammar.
    open spec fn decode_spec(b: Seq<u8>) -> Option<AdbCommandView> {
        if vstd::utf8::valid_utf8(b) {
            spec_parse_cmd(lower_of(vstd::utf8::decode_utf8(b)))
        } else {
            None
        }
    }

    fn decode(b: Vec<u8>) -> (r: Option<Self>) {
        let s = match utf8_to_string(b) {
            Some(s) => s,
            None => {
                return None;
            },
        };
        let ls = lowercase(s.as_str());
        if str_eq(ls.as_str(), "connect") {
            return Some(AdbCommand::Connect);
        }
        if str_eq(ls.as_str(), "disconnect") {
            return Some(AdbCommand::Disconnect);
        }
        if str_eq(ls.as_str(), "generate") {
            return Some(AdbCommand::Generate);
        }
        if str_eq(ls.as_str(), "list") {
            return Some(AdbCommand::List);
        }
        let chars = str_chars(ls.as_str());
        let bounds = split_ws_bounds(&chars);
        if bounds.len() == 3 {
            let (a0, b0) = bounds[0];
            let head = ls.as_str().substring_char(a0, b0);
            if str_eq(head, "pair") {
                let (a1, b1) = bounds[1];
                let (a2, b2) = bounds[2];
                let server = ls.as_str().substring_char(a1, b1);
                let pwd = ls.as_str().substring_char(a2, b2);
                return Some(AdbCommand::Pair(PairInfo::from(server, pwd)));
            }
        }
        None
    }
}

/// What the host must do for one decoded command. Everything but
/// `Generate` needs the `adb` process; `Generate` is answered locally.
pub enum AdbAction {
    RunConnect,
    RunDisconnect,
    RunPair(PairInfo),
    RunList,
    AnswerGenerate,
}

/// The wireless-debugging plugin itself. Its typed input is
/// [`AdbCommand`], its typed output [`AdbResult`]; the host performs
/// the `adb` invocations its decisions call for.
pub struct PluginAdbConnect;

impl PluginAdbConnect {
    /// Which host action each command requires.
    pub fn decide_action(cmd: AdbCommand) -> (r: AdbAction)
        ensures
            match cmd@ {
                AdbCommandView::Connect => r is RunConnect,
                AdbCommandView::Disconnect => r is RunDisconnect,
                AdbCommandView::Pair(p) => match r {
                    AdbAction::RunPair(q) => q@ == p,
                    _ => false,
                },
                AdbCommandView::List => r is RunList,
                AdbCommandView::Generate => r is AnswerGenerate,
            },
    {
        match cmd {
            AdbCommand::Connect => AdbAction::RunConnect,
            AdbCommand::Disconnect => AdbAction::RunDisconnect,
            AdbCommand::Pair(p) => AdbAction::RunPair(p),
            AdbCommand::List => AdbAction::RunList,
            AdbCommand::Generate => AdbAction::AnswerGenerate,
        }
    }

    /// The local answer of the `Generate` command.
    pub fn generate_reply(pair: &PairInfo) -> (r: String)
        ensures
            r@ == "server: "@ + pair@.server + ", pwd:"@ + pair@.pwd,
    {
        let mut r = "server: ".to_owned();
        r.append(pair.server.as_str());
        r.append(", pwd:");
        r.append(pair.pwd.as_str());
        r
    }

    /// This plugin's descriptor metadata.
    pub fn get_metadata(&self) -> (r: crate::model::PluginMetadata)
        ensures
            r@.name == "plugin_adb_connect"@,
            r@.version == "0.1.0"@,
            r@.author == "munch1182"@,
            r@.description is None,
            r@.plugin_type is Hybrid,
            r@.config is None,
    {
        crate::model::PluginMetadata::new(
            "plugin_adb_connect",
            "0.1.0",
            "munch1182",
            None,
            crate::model::PluginType::Hybrid,
        )
    }
}

/// Start of the white-space run that ends right before `e`: the first
/// position `w` with nothing but white space in `w..e`.
pub open spec fn spec_ws_back(s: Seq<char>, e: int) -> int
    decreases e,
{
    if e <= 0 {
        0
    } else if spec_is_space(s[e - 1]) {
        spec_ws_back(s, e - 1)
    } else {
        e
    }
}

/// Largest start position at or below `pos` that sits at the line
/// start or right after a tab: where the device-name field begins.
pub open spec fn spec_name_start(s: Seq<char>, pos: int) -> int
    decreases pos,
{
    if pos <= 0 {
        0
    } else if s[pos - 1] == '\t' {
        pos
    } else {
        spec_name_start(s, pos - 1)
    }
}

pub open spec fn spec_trim_start(s: Seq<char>) -> Seq<char>
    decreases s.len(),
{
    if s.len() > 0 && spec_is_space(s[0]) {
        spec_trim_start(s.drop_first())
    } else {
        s
    }
}

pub open spec fn spec_trim_end(s: Seq<char>) -> Seq<char>
    decreases s.len(),
{
    if s.len() > 0 && spec_is_space(s.last()) {
        spec_trim_end(s.drop_last())
    } else {
        s
    }
}

/// `s` without leading and trailing white space.
pub open spec fn spec_trim(s: Seq<char>) -> Seq<char> {
    spec_trim_end(spec_trim_start(s))
}

/// Trim the range `a..b` of `chars`: the narrowed range holding the
/// same text without leading and trailing white space.
#[verifier::loop_isolation(false)]
fn trim_range(chars: &Vec<char>, a: usize, b: usize) -> (r: (usize, usize))
    requires
        a <= b <= chars@.len(),
    ensures
        a <= r.0 <= r.1 <= b,
        chars@.subrange(r.0 as int, r.1 as int) == spec_trim(
            chars@.subrange(a as int, b as int),
        ),
{
    let mut lo = a;
    while lo < b && is_space(chars[lo])
        invariant
            a <= lo <= b,
            spec_trim_start(chars@.subrange(a as int, b as int)) == spec_trim_start(
                chars@.subrange(lo as int, b as int),
            ),
        decreases b - lo,
    {
        proof {
            assert(chars@.subrange(lo as int, b as int).drop_first() =~= chars@.subrange(
                lo + 1,
                b as int,
            ));
        }
        lo = lo + 1;
    }
    proof {
        assert(spec_trim_start(chars@.subrange(a as int, b as int)) == chars@.subrange(
            lo as int,
            b as int,
        ));
    }
    let mut hi = b;
    while hi > lo && is_space(chars[hi - 1])
        invariant
            lo <= hi <= b,
            spec_trim_end(chars@.subrange(lo as int, b as int)) == spec_trim_end(
                chars@.subrange(lo as int, hi as int),
            ),
        decreases hi,
    {
        proof {
            assert(chars@.subrange(lo as int, hi as int).drop_last() =~= chars@.subrange(
                lo as int,
                hi - 1,
            ));
        }
        hi = hi - 1;
    }
    (lo, hi)
}

/// First position of `c` at or after `from`.
pub open spec fn spec_char_from(s: Seq<char>, from: int, c: char) -> Option<int>
    decreases s.len() - from + 1,
{
    if from < 0 || from >= s.len() {
        None
    } else if s[from] == c {
        Some(from)
    } else {
        spec_char_from(s, from + 1, c)
    }
}

#[verifier::loop_isolation(false)]
fn find_char_from(chars: &Vec<char>, from: usize, c: char) -> (r: Option<usize>)
    requires
        from <= chars@.len(),
    ensures
        match r {
            Some(i) => from <= i < chars@.len() && spec_char_from(chars@, from as int, c)
                == Some(i as int),
            None => spec_char_from(chars@, from as int, c) is None,
        },
{
    let n = chars.len();
    let mut i = from;
    while i < n
        invariant
            from <= i <= n,
            spec_char_from(chars@, from as int, c) == spec_char_from(chars@, i as int, c),
        decreases n - i,
    {
        if chars[i] == c {
            return Some(i);
        }
        i = i + 1;
    }
    None
}

pub open spec fn spec_is_digit(c: char) -> bool {
    0x30 <= c as u32 <= 0x39
}

/// End of the run of decimal digits that starts at `from`.
pub open spec fn spec_digits_end(s: Seq<char>, from: int) -> int
    decreases s.len() - from + 1,
{
    if from < 0 || from >= s.len() || !spec_is_digit(s[from]) {
        from
    } else {
        spec_digits_end(s, from + 1)
    }
}

#[verifier::loop_isolation(false)]
fn digits_end(chars: &Vec<char>, from: usize) -> (r: usize)
    requires
        from <= chars@.len(),
    ensures
        from <= r <= chars@.len(),
        r == spec_digits_end(chars@, from as int),
{
    let n = chars.len();
    let mut i = from;
    while i < n
        invariant
            from <= i <= n,
            spec_digits_end(chars@, from as int) == spec_digits_end(chars@, i as int),
        decreases n - i,
    {
        let u = chars[i] as u32;
        if u < 0x30 || u > 0x39 {
            return i;
        }
        i = i + 1;
    }
    n
}

/// A first match is a match.
proof fn lemma_first_match_is_match(hay: Seq<char>, needle: Seq<char>, from: int, i: int)
    requires
        spec_first_match_from(hay, needle, from) == Some(i),
    ensures
        spec_match_at(hay, needle, i),
        from <= i,
    decreases hay.len() - from + 1,
{
    if from + needle.len() <= hay.len() && !spec_match_at(hay, needle, from) {
        lemma_first_match_is_match(hay, needle, from + 1, i);
    }
}

/// Position and kind of the first scan-line marker in `s`: the
/// connect marker or the pairing marker, whichever occurs first
/// (`true` means the pairing marker).
pub open spec fn spec_marker_match(s: Seq<char>) -> Option<(int, bool)> {
    let c = spec_first_match_from(s, "_adb-tls-connect._tcp"@, 0);
    let p = spec_first_match_from(s, "_adb-tls-pairing._tcp"@, 0);
    match (c, p) {
        (Option::None, Option::None) => None,
        (Option::Some(i), Option::None) => Some((i, false)),
        (Option::None, Option::Some(j)) => Some((j, true)),
        (Option::Some(i), Option::Some(j)) => if i <= j {
            Some((i, false))
        } else {
            Some((j, true))
        },
    }
}

/// The four fields of one `adb mdns services` line, by this library's
/// scan-line grammar: a device name (the text before the white-space
/// run that precedes the first marker, back to the last tab, trimmed,
/// non-empty), the marker itself, a host (the text between the marker
/// and the first colon after it, trimmed, with at least one character
/// before the trim), and a non-empty run of port digits right after
/// the colon.
pub open spec fn spec_find(s: Seq<char>) -> Option<Seq<Seq<char>>> {
    match spec_marker_match(s) {
        None => None,
        Some((pos, pairing)) => {
            let marker = if pairing {
                "_adb-tls-pairing._tcp"@
            } else {
                "_adb-tls-connect._tcp"@
            };
            let wend = spec_ws_back(s, pos);
            let name = spec_trim(s.subrange(spec_name_start(s, wend), wend));
            if name.len() == 0 {
                None
            } else {
                let after = pos + marker.len();
                match spec_char_from(s, after, ':') {
                    None => None,
                    Some(ci) => if ci == after {
                        None
                    } else {
                        let host = spec_trim(s.subrange(after, ci));
                        let dend = spec_digits_end(s, ci + 1);
                        if dend == ci + 1 {
                            None
                        } else {
                            Some(seq![name, marker, host, s.subrange(ci + 1, dend)])
                        }
                    },
                }
            }
        },
    }
}

/// Parse one scan line into its four fields, or nothing when the line
/// does not fit the grammar.
#[verifier::loop_isolation(false)]
pub fn find(s: &str) -> (r: Option<Vec<String>>)
    ensures
        match r {
            Some(g) => spec_find(s@) == Some(g@.map_values(|x: String| x@)),
            None => spec_find(s@) is None,
        },
{
    let chars = str_chars(s);
    let conn = str_chars("_adb-tls-connect._tcp");
    let pairm = str_chars("_adb-tls-pairing._tcp");
    let mc = first_match_from(&chars, &conn, 0);
    let mp = first_match_from(&chars, &pairm, 0);
    let (pos, pairing) = match (mc, mp) {
        (Option::None, Option::None) => {
            return None;
        },
        (Option::Some(i), Option::None) => (i, false),
        (Option::None, Option::Some(j)) => (j, true),
        (Option::Some(i), Option::Some(j)) => if i <= j {
            (i, false)
        } else {
            (j, true)
        },
    };
    let mlen = if pairing {
        pairm.len()
    } else {
        conn.len()
    };
    let n = chars.len();
    proof {
        reveal_strlit("_adb-tls-connect._tcp");
        reveal_strlit("_adb-tls-pairing._tcp");
        assert(spec_marker_match(s@) == Some((pos as int, pairing)));
        if pairing {
            lemma_first_match_is_match(s@, "_adb-tls-pairing._tcp"@, 0, pos as int);
        } else {
            lemma_first_match_is_match(s@, "_adb-tls-connect._tcp"@, 0, pos as int);
        }
    }
    let mut w = pos;
    while w > 0 && is_space(chars[w - 1])
        invariant
            w <= pos < chars@.len(),
            spec_ws_back(s@, pos as int) == spec_ws_back(s@, w as int),
        decreases w,
    {
        w = w - 1;
    }
    let mut t = w;
    while t > 0 && chars[t - 1] != '\t'
        invariant
            t <= w,
            w <= pos < chars@.len(),
            spec_name_start(s@, w as int) == spec_name_start(s@, t as int),
        decreases t,
    {
        t = t - 1;
    }
    let (na, nb) = trim_range(&chars, t, w);
    if na == nb {
        proof {
            assert(spec_trim(s@.subrange(t as int, w as int)) =~= Seq::<char>::empty());
        }
        return None;
    }
    proof {
        if pairing {
            assert(mlen == "_adb-tls-pairing._tcp"@.len());
        } else {
            assert(mlen == "_adb-tls-connect._tcp"@.len());
        }
        assert(pos + mlen <= n);
    }
    let after = pos + mlen;
    let ci = match find_char_from(&chars, after, ':') {
        None => {
            return None;
        },
        Some(c) => c,
    };
    if ci == after {
        return None;
    }
    let (ha, hb) = trim_range(&chars, after, ci);
    let dstart = ci + 1;
    let dend = digits_end(&chars, dstart);
    if dend == dstart {
        return None;
    }
    let g0 = s.substring_char(na, nb).to_owned();
    let g1 = if pairing {
        "_adb-tls-pairing._tcp".to_owned()
    } else {
        "_adb-tls-connect._tcp".to_owned()
    };
    let g2 = s.substring_char(ha, hb).to_owned();
    let g3 = s.substring_char(dstart, dend).to_owned();
    let mut out: Vec<String> = Vec::new();
    out.push(g0);
    out.push(g1);
    out.push(g2);
    out.push(g3);
    proof {
        let groups = spec_find(s@).unwrap();
        assert(out@.map_values(|x: String| x@) =~= groups);
    }
    Some(out)
}


pub open spec fn spec_all_digits(s: Seq<char>) -> bool {
    forall|k: int| 0 <= k < s.len() ==> spec_is_digit(#[trigger] s[k])
}

/// The number a run of decimal digits denotes.
pub open spec fn spec_digits_value(s: Seq<char>) -> int
    decreases s.len(),
{
    if s.len() == 0 {
        0
    } else {
        spec_digits_value(s.drop_last()) * 10 + (s.last() as u32 - 0x30)
    }
}

proof fn lemma_digits_value_nonneg(s: Seq<char>)
    requires
        spec_all_digits(s),
    ensures
        spec_digits_value(s) >= 0,
    decreases s.len(),
{
    if s.len() > 0 {
        assert(spec_all_digits(s.drop_last()));
        lemma_digits_value_nonneg(s.drop_last());
    }
}

/// A digit run is worth at least any of its prefixes.
proof fn lemma_digits_prefix_bound(s: Seq<char>, k: int)
    requires
        0 <= k <= s.len(),
        spec_all_digits(s),
    ensures
        spec_digits_value(s) >= spec_digits_value(s.take(k)),
    decreases s.len() - k,
{
    if k == s.len() {
        assert(s.take(k) =~= s);
    } else {
        assert(spec_all_digits(s.drop_last()));
        assert(s.drop_last().take(k) =~= s.take(k));
        lemma_digits_prefix_bound(s.drop_last(), k);
        lemma_digits_value_nonneg(s.drop_last());
    }
}

/// Read the digit run `a..b` of `chars` as a number of at most `cap`.
#[verifier::loop_isolation(false)]
fn parse_digits_u32(chars: &Vec<char>, a: usize, b: usize, cap: u32) -> (r: Option<u32>)
    requires
        a <= b <= chars@.len(),
        cap <= 0xFFFF,
    ensures
        ({
            let part = chars@.subrange(a as int, b as int);
            match r {
                Some(v) => spec_all_digits(part) && spec_digits_value(part) == v && v <= cap,
                None => !(spec_all_digits(part) && spec_digits_value(part) <= cap),
            }
        }),
{
    let ghost part = chars@.subrange(a as int, b as int);
    let mut v: u32 = 0;
    let mut i = a;
    while i < b
        invariant
            a <= i <= b,
            spec_all_digits(chars@.subrange(a as int, i as int)),
            v == spec_digits_value(chars@.subrange(a as int, i as int)),
            v <= cap,
        decreases b - i,
    {
        let ghost pre = chars@.subrange(a as int, i as int);
        let u = chars[i] as u32;
        proof {
            assert(chars@.subrange(a as int, i + 1).drop_last() =~= pre);
            assert(chars@.subrange(a as int, i + 1).last() == chars@[i as int]);
        }
        if u < 0x30 || u > 0x39 {
            proof {
                assert(part[i - a] == chars@[i as int]);
                assert(!spec_all_digits(part));
            }
            return None;
        }
        let vn = v * 10 + (u - 0x30);
        proof {
            assert(spec_all_digits(chars@.subrange(a as int, i + 1)));
            assert(vn == spec_digits_value(chars@.subrange(a as int, i + 1)));
        }
        if vn > cap {
            proof {
                if spec_all_digits(part) {
                    assert(part.take(i + 1 - a) =~= chars@.subrange(a as int, i + 1));
                    lemma_digits_prefix_bound(part, i + 1 - a);
                }
            }
            return None;
        }
        v = vn;
        i = i + 1;
    }
    proof {
        assert(chars@.subrange(a as int, b as int) =~= part);
    }
    Some(v)
}

/// One octet of a dotted-quad address: one to three digits, no
/// leading zero, value at most 255.
pub open spec fn spec_parse_octet(s: Seq<char>) -> Option<u8> {
    if 1 <= s.len() <= 3 && spec_all_digits(s) && !(s.len() > 1 && s[0] == '0')
        && spec_digits_value(s) <= 255 {
        Some(spec_digits_value(s) as u8)
    } else {
        None
    }
}

fn parse_octet(chars: &Vec<char>, a: usize, b: usize) -> (r: Option<u8>)
    requires
        a <= b <= chars@.len(),
    ensures
        r == spec_parse_octet(chars@.subrange(a as int, b as int)),
{
    let len = b - a;
    if len < 1 || len > 3 {
        return None;
    }
    if len > 1 && chars[a] == '0' {
        return None;
    }
    match parse_digits_u32(chars, a, b, 255) {
        Some(v) => Some(v as u8),
        None => None,
    }
}

/// A dotted-quad IPv4 address held as its four octets.
#[derive(Debug, Clone, Copy, PartialEq, Eq, Structural)]
pub struct Ipv4 {
    pub o1: u8,
    pub o2: u8,
    pub o3: u8,
    pub o4: u8,
}

/// The dotted-quad grammar: exactly three dots, each of the four
/// parts a valid octet.
pub open spec fn spec_parse_ipv4(s: Seq<char>) -> Option<Ipv4> {
    match spec_char_from(s, 0, '.') {
        None => None,
        Some(p1) => match spec_char_from(s, p1 + 1, '.') {
            None => None,
            Some(p2) => match spec_char_from(s, p2 + 1, '.') {
                None => None,
                Some(p3) => if spec_char_from(s, p3 + 1, '.') is Some {
                    None
                } else {
                    match (
                        spec_parse_octet(s.subrange(0, p1)),
                        spec_parse_octet(s.subrange(p1 + 1, p2)),
                        spec_parse_octet(s.subrange(p2 + 1, p3)),
                        spec_parse_octet(s.subrange(p3 + 1, s.len() as int)),
                    ) {
                        (Some(o1), Some(o2), Some(o3), Some(o4)) => Some(Ipv4 { o1, o2, o3, o4 }),
                        _ => None,
                    }
                },
            },
        },
    }
}

/// Parse a dotted-quad IPv4 address.
pub fn parse_ipv4(s: &str) -> (r: Option<Ipv4>)
    ensures
        r == spec_parse_ipv4(s@),
{
    let chars = str_chars(s);
    let n = chars.len();
    let p1 = match find_char_from(&chars, 0, '.') {
        None => {
            return None;
        },
        Some(p) => p,
    };
    let p2 = match find_char_from(&chars, p1 + 1, '.') {
        None => {
            return None;
        },
        Some(p) => p,
    };
    let p3 = match find_char_from(&chars, p2 + 1, '.') {
        None => {
            return None;
        },
        Some(p) => p,
    };
    if matches!(find_char_from(&chars, p3 + 1, '.'), Some(_)) {
        return None;
    }
    let a = parse_octet(&chars, 0, p1);
    let b = parse_octet(&chars, p1 + 1, p2);
    let c = parse_octet(&chars, p2 + 1, p3);
    let d = parse_octet(&chars, p3 + 1, n);
    match (a, b, c, d) {
        (Option::Some(o1), Option::Some(o2), Option::Some(o3), Option::Some(o4)) => Some(
            Ipv4 { o1, o2, o3, o4 },
        ),
        _ => None,
    }
}

/// Which side of the wireless-debugging handshake a scanned service
/// offers.
#[derive(Debug, Clone, Copy, PartialEq, Eq, Structural)]
pub enum ServerType {
    /// A connect endpoint (advertised for QR-initiated sessions).
    QrCode,
    /// A pairing endpoint (advertised by a pairing dialog).
    PairingCode,
}

impl<'a> From<&'a str> for ServerType {
    /// A service named with the tool prefix is a pairing endpoint.
    fn from(value: &'a str) -> (r: Self) {
        if starts_with_str(value, "studio-") {
            ServerType::PairingCode
        } else {
            ServerType::QrCode
        }
    }
}

impl<'a> vstd::std_specs::convert::FromSpecImpl<&'a str> for ServerType {
    open spec fn obeys_from_spec() -> bool {
        true
    }

    open spec fn from_spec(v: &'a str) -> ServerType {
        if spec_starts_with(v@, "studio-"@) {
            ServerType::PairingCode
        } else {
            ServerType::QrCode
        }
    }
}

/// Mathematical value of a [`ScanItem`].
#[verifier::ext_equal]
pub ghost struct ScanItemView {
    pub name: Seq<char>,
    pub addr: Ipv4,
    pub port: u16,
    pub server_type: ServerType,
}

/// One device line of an `adb mdns services` scan, parsed.
pub struct ScanItem {
    pub name: String,
    pub addr: Ipv4,
    pub port: u16,
    pub server_type: ServerType,
}

impl View for ScanItem {
    type V = ScanItemView;

    open spec fn view(&self) -> ScanItemView {
        ScanItemView {
            name: self.name@,
            addr: self.addr,
            port: self.port,
            server_type: self.server_type,
        }
    }
}

/// What a whole scan line parses to: its grammar fields, with the
/// host read as an IPv4 address and the digits as a port.
pub open spec fn spec_scan_item(line: Seq<char>) -> Option<ScanItemView> {
    match spec_find(line) {
        None => None,
        Some(groups) => match spec_parse_ipv4(groups[2]) {
            None => None,
            Some(addr) => if spec_all_digits(groups[3]) && spec_digits_value(groups[3]) <= 0xFFFF {
                Some(
                    ScanItemView {
                        name: groups[0],
                        addr,
                        port: spec_digits_value(groups[3]) as u16,
                        server_type: if spec_starts_with(groups[0], "studio-"@) {
                            ServerType::PairingCode
                        } else {
                            ServerType::QrCode
                        },
                    },
                )
            } else {
                None
            },
        },
    }
}

impl ScanItem {
    /// Parse one scan line, or say which field was at fault.
    pub fn parse(value: &str) -> (r: Result<ScanItem, String>)
        ensures
            match r {
                Ok(item) => spec_scan_item(value@) == Some(item@),
                Err(_) => spec_scan_item(value@) is None,
            },
    {
        let mut groups = match find(value) {
            None => {
                return Err("find failed".to_owned());
            },
            Some(g) => g,
        };
        let ghost gs = spec_find(value@).unwrap();
        proof {
            assert(groups@.map_values(|x: String| x@).len() == 4);
        }
        let name = groups.remove(0);
        let _marker = groups.remove(0);
        let host = groups.remove(0);
        let digits = groups.remove(0);
        proof {
            assert(name@ == gs[0]);
            assert(host@ == gs[2]);
            assert(digits@ == gs[3]);
        }
        let addr = match parse_ipv4(host.as_str()) {
            None => {
                let mut m = "Invalid ip: ".to_owned();
                m.append(host.as_str());
                return Err(m);
            },
            Some(a) => a,
        };
        let dchars = str_chars(digits.as_str());
        let dlen = dchars.len();
        proof {
            assert(dchars@.subrange(0, dchars@.len() as int) =~= gs[3]);
        }
        let port = match parse_digits_u32(&dchars, 0, dlen, 0xFFFF) {
            None => {
                let mut m = "Invalid port: ".to_owned();
                m.append(digits.as_str());
                return Err(m);
            },
            Some(p) => p as u16,
        };
        let server_type = if starts_with_str(name.as_str(), "studio-") {
            ServerType::PairingCode
        } else {
            ServerType::QrCode
        };
        Ok(ScanItem { name, addr, port, server_type })
    }
}


/// Does an item offer the wanted handshake side?
pub open spec fn spec_wanted(v: ScanItemView, want_pairing: bool) -> bool {
    if want_pairing {
        v.server_type is PairingCode
    } else {
        v.server_type is QrCode
    }
}

/// Choose which scanned service a connect attempt should talk to: a
/// pairing endpoint when pairing credentials are at hand, a connect
/// endpoint otherwise. Among candidates the one with the longest name
/// is preferred (ties are broken by name text, address, port and
/// kind, in that order).
pub fn pick_target(items: &Vec<ScanItem>, want_pairing: bool) -> (r: Option<usize>)
    ensures
        match r {
            Some(i) => i < items@.len() && spec_wanted(items@[i as int]@, want_pairing)
                && forall|j: int|
                0 <= j < items@.len() && spec_wanted(#[trigger] items@[j]@, want_pairing)
                    ==> items@[j]@.name.len() <= items@[i as int]@.name.len(),
            None => forall|j: int|
                0 <= j < items@.len() ==> !spec_wanted(#[trigger] items@[j]@, want_pairing),
        },
{
    let n = items.len();
    let mut best: Option<usize> = None;
    let mut i: usize = 0;
    while i < n
        invariant
            i <= n,
            n == items@.len(),
            match best {
                Some(b) => b < i && spec_wanted(items@[b as int]@, want_pairing) && forall|j: int|
                    0 <= j < i && spec_wanted(#[trigger] items@[j]@, want_pairing)
                        ==> items@[j]@.name.len() <= items@[b as int]@.name.len(),
                None => forall|j: int|
                    0 <= j < i ==> !spec_wanted(#[trigger] items@[j]@, want_pairing),
            },
        decreases n - i,
    {
        let item = &items[i];
        let is_pairing = matches!(item.server_type, ServerType::PairingCode);
        let wanted = if want_pairing {
            is_pairing
        } else {
            !is_pairing
        };
        if wanted {
            match best {
                None => {
                    best = Some(i);
                },
                Some(b) => {
                    if better_target(item, &items[b]) {
                        best = Some(i);
                    }
                },
            }
        }
        i = i + 1;
    }
    best
}

/// Is `a` preferred over `b`? Longer name first, then smaller name
/// text, address, port and kind. Only the name-length preference is
/// promised to callers; the rest is a deterministic tie-break.
#[verifier::loop_isolation(false)]
fn better_target(a: &ScanItem, b: &ScanItem) -> (r: bool)
    ensures
        a@.name.len() > b@.name.len() ==> r,
        a@.name.len() < b@.name.len() ==> !r,
{
    let alen = a.name.as_str().unicode_len();
    let blen = b.name.as_str().unicode_len();
    if alen != blen {
        return alen > blen;
    }
    let ac = str_chars(a.name.as_str());
    let bc = str_chars(b.name.as_str());
    let mut k: usize = 0;
    while k < alen
        invariant
            k <= alen,
            alen == ac@.len(),
            alen == bc@.len(),
        decreases alen - k,
    {
        let x = ac[k] as u32;
        let y = bc[k] as u32;
        if x != y {
            return x < y;
        }
        k = k + 1;
    }
    if a.addr.o1 != b.addr.o1 {
        return a.addr.o1 < b.addr.o1;
    }
    if a.addr.o2 != b.addr.o2 {
        return a.addr.o2 < b.addr.o2;
    }
    if a.addr.o3 != b.addr.o3 {
        return a.addr.o3 < b.addr.o3;
    }
    if a.addr.o4 != b.addr.o4 {
        return a.addr.o4 < b.addr.o4;
    }
    if a.port != b.port {
        return a.port < b.port;
    }
    matches!((a.server_type, b.server_type), (ServerType::QrCode, ServerType::PairingCode))
}

} // verus!
