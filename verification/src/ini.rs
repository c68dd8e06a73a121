//! Parser for the INI-style fallback configuration file.
//!
//! The file is a sequence of lines. A line of the exact form `[name]`
//! (after trimming) is a section header; the parser recognizes the
//! `[auth]` and `[defaults]` sections. Inside `[auth]`, a line
//! `token = value` records the auth token; inside `[defaults]`,
//! `org = value` records the organization. Whitespace around keys and
//! values is trimmed; everything else is ignored.

use vstd::prelude::*;

verus! {

/// Which recognized section the parser is currently inside.
#[derive(Clone, Copy)]
pub enum Section {
    NoSection,
    Auth,
    Defaults,
}

/// Parser state: the current section and the values recorded so far.
pub struct IniState {
    pub section: Section,
    pub organization: Option<Seq<char>>,
    pub auth_token: Option<Seq<char>>,
}

pub open spec fn init_state() -> IniState {
    IniState { section: Section::NoSection, organization: None, auth_token: None }
}

/// The whitespace characters stripped from line ends, keys and values.
pub open spec fn is_ws(c: char) -> bool {
    c == ' ' || c == '\t' || c == '\r' || c == '\n' || c == '\u{b}' || c == '\u{c}'
}

pub open spec fn trim_start(s: Seq<char>) -> Seq<char>
    decreases s.len(),
{
    if s.len() > 0 && is_ws(s[0]) {
        trim_start(s.skip(1))
    } else {
        s
    }
}

pub open spec fn trim_end(s: Seq<char>) -> Seq<char>
    decreases s.len(),
{
    if s.len() > 0 && is_ws(s.last()) {
        trim_end(s.drop_last())
    } else {
        s
    }
}

/// The sequence with leading and trailing whitespace removed.
pub open spec fn trim(s: Seq<char>) -> Seq<char> {
    trim_end(trim_start(s))
}

/// Index of the first `=` in `s`, or `s.len()` if there is none.
pub open spec fn find_eq(s: Seq<char>) -> int
    decreases s.len(),
{
    if s.len() == 0 {
        0
    } else if s[0] == '=' {
        0
    } else {
        1 + find_eq(s.skip(1))
    }
}

/// A trimmed line that is bracketed on both sides is a section header.
pub open spec fn is_header(t: Seq<char>) -> bool {
    t.len() >= 2 && t[0] == '[' && t[t.len() - 1] == ']'
}

/// The section that a header line selects; an unrecognized name
/// deactivates both recognized sections.
pub open spec fn header_section(t: Seq<char>) -> Section {
    if t == "[auth]"@ {
        Section::Auth
    } else if t == "[defaults]"@ {
        Section::Defaults
    } else {
        Section::NoSection
    }
}

/// One line applied to the parser state: a header switches sections; a
/// `key=value` line with a recognized key inside its section records the
/// trimmed value; any other line (including one without `=`) is ignored.
pub open spec fn line_step(st: IniState, line: Seq<char>) -> IniState {
    let t = trim(line);
    if is_header(t) {
        IniState { section: header_section(t), ..st }
    } else if find_eq(t) < t.len() {
        let k = trim(t.take(find_eq(t)));
        let v = trim(t.skip(find_eq(t) + 1));
        if st.section is Auth && k == "token"@ {
            IniState { auth_token: Some(v), ..st }
        } else if st.section is Defaults && k == "org"@ {
            IniState { organization: Some(v), ..st }
        } else {
            st
        }
    } else {
        st
    }
}

/// The state after consuming `s`, where `cur` is the partial line read so
/// far: lines are separated by `\n`, and the final partial line is also
/// applied.
pub open spec fn parse_from(s: Seq<char>, cur: Seq<char>, st: IniState) -> IniState
    decreases s.len(),
{
    if s.len() == 0 {
        line_step(st, cur)
    } else if s[0] == '\n' {
        parse_from(s.skip(1), Seq::empty(), line_step(st, cur))
    } else {
        parse_from(s.skip(1), cur.push(s[0]), st)
    }
}

/// The parser state that a whole fallback file produces.
pub open spec fn ini_state_of(s: Seq<char>) -> IniState {
    parse_from(s, Seq::empty(), init_state())
}

proof fn lemma_parse_from_split(s1: Seq<char>, s2: Seq<char>, cur: Seq<char>, st: IniState)
    requires
        !s1.contains('\n'),
    ensures
        parse_from(s1 + seq!['\n'] + s2, cur, st) == parse_from(
            s2,
            Seq::empty(),
            line_step(st, cur + s1),
        ),
    decreases s1.len(),
{
    if s1.len() == 0 {
        assert(s1 + seq!['\n'] + s2 =~= seq!['\n'] + s2);
        assert((seq!['\n'] + s2)[0] == '\n');
        assert((seq!['\n'] + s2).skip(1) =~= s2);
        assert(cur + s1 =~= cur);
    } else {
        assert(s1[0] != '\n');
        assert((s1 + seq!['\n'] + s2)[0] == s1[0]);
        assert((s1 + seq!['\n'] + s2).skip(1) =~= s1.skip(1) + seq!['\n'] + s2);
        assert(!s1.skip(1).contains('\n')) by {
            assert(forall|i: int|
                0 <= i < s1.skip(1).len() ==> s1.skip(1)[i] == s1[i + 1]);
        }
        lemma_parse_from_split(s1.skip(1), s2, cur.push(s1[0]), st);
        assert(cur.push(s1[0]) + s1.skip(1) =~= cur + s1);
    }
}

proof fn lemma_parse_from_last(s: Seq<char>, cur: Seq<char>, st: IniState)
    requires
        !s.contains('\n'),
    ensures
        parse_from(s, cur, st) == line_step(st, cur + s),
    decreases s.len(),
{
    if s.len() == 0 {
        assert(cur + s =~= cur);
    } else {
        assert(s[0] != '\n');
        assert(!s.skip(1).contains('\n')) by {
            assert(forall|i: int| 0 <= i < s.skip(1).len() ==> s.skip(1)[i] == s[i + 1]);
        }
        lemma_parse_from_last(s.skip(1), cur.push(s[0]), st);
        assert(cur.push(s[0]) + s.skip(1) =~= cur + s);
    }
}

/// The parse really goes line by line: a first line (no separator in it)
/// is applied to the state, and the rest of the file is parsed from the
/// state it leaves; a file without a separator is a single line.
pub proof fn lemma_parse_by_lines(line: Seq<char>, rest: Seq<char>, st: IniState)
    requires
        !line.contains('\n'),
    ensures
        parse_from(line + seq!['\n'] + rest, Seq::empty(), st) == parse_from(
            rest,
            Seq::empty(),
            line_step(st, line),
        ),
        parse_from(line, Seq::empty(), st) == line_step(st, line),
{
    lemma_parse_from_split(line, rest, Seq::empty(), st);
    lemma_parse_from_last(line, Seq::empty(), st);
    assert(Seq::<char>::empty() + line =~= line);
}

fn is_ws_exec(c: char) -> (r: bool)
    ensures
        r == is_ws(c),
{
    c == ' ' || c == '\t' || c == '\r' || c == '\n' || c == '\u{b}' || c == '\u{c}'
}

/// Bounds of `s[lo..hi]` with whitespace stripped from both ends.
fn trim_range(s: &str, lo: usize, hi: usize) -> (r: (usize, usize))
    requires
        lo <= hi <= s@.len(),
    ensures
        lo <= r.0 <= r.1 <= hi,
        s@.subrange(r.0 as int, r.1 as int) == trim(s@.subrange(lo as int, hi as int)),
{
    let mut a = lo;
    let mut b = hi;
    while a < b && is_ws_exec(s.get_char(a))
        invariant
            lo <= a <= b <= hi,
            b == hi,
            hi <= s@.len(),
            trim_start(s@.subrange(lo as int, hi as int)) == trim_start(
                s@.subrange(a as int, b as int),
            ),
        decreases b - a,
    {
        proof {
            let sub = s@.subrange(a as int, b as int);
            assert(sub[0] == s@[a as int]);
            assert(sub.skip(1) =~= s@.subrange(a as int + 1, b as int));
            assert(trim_start(sub) == trim_start(sub.skip(1)));
        }
        a += 1;
    }
    proof {
        let sub = s@.subrange(a as int, b as int);
        if sub.len() > 0 {
            assert(sub[0] == s@[a as int]);
        }
        assert(trim_start(sub) == sub);
    }
    while a < b && is_ws_exec(s.get_char(b - 1))
        invariant
            lo <= a <= b <= hi,
            hi <= s@.len(),
            trim(s@.subrange(lo as int, hi as int)) == trim_end(
                s@.subrange(a as int, b as int),
            ),
        decreases b - a,
    {
        proof {
            let sub = s@.subrange(a as int, b as int);
            assert(sub.last() == s@[b as int - 1]);
            assert(sub.drop_last() =~= s@.subrange(a as int, b as int - 1));
            assert(trim_end(sub) == trim_end(sub.drop_last()));
        }
        b -= 1;
    }
    proof {
        let sub = s@.subrange(a as int, b as int);
        if sub.len() > 0 {
            assert(sub.last() == s@[b as int - 1]);
        }
        assert(trim_end(sub) == sub);
    }
    (a, b)
}

/// Position of the first `=` in `s[lo..hi]`, or `hi` if there is none.
fn find_eq_range(s: &str, lo: usize, hi: usize) -> (r: usize)
    requires
        lo <= hi <= s@.len(),
    ensures
        lo <= r <= hi,
        r - lo == find_eq(s@.subrange(lo as int, hi as int)),
{
    let mut i = lo;
    while i < hi
        invariant
            lo <= i <= hi <= s@.len(),
            find_eq(s@.subrange(lo as int, hi as int)) == i - lo + find_eq(
                s@.subrange(i as int, hi as int),
            ),
        decreases hi - i,
    {
        let c = s.get_char(i);
        proof {
            let sub = s@.subrange(i as int, hi as int);
            assert(sub[0] == s@[i as int]);
            if c == '=' {
                assert(find_eq(sub) == 0);
            } else {
                assert(sub.skip(1) =~= s@.subrange(i as int + 1, hi as int));
                assert(find_eq(sub) == 1 + find_eq(sub.skip(1)));
            }
        }
        if c == '=' {
            return i;
        }
        i += 1;
    }
    proof {
        assert(s@.subrange(hi as int, hi as int).len() == 0);
        assert(find_eq(s@.subrange(hi as int, hi as int)) == 0);
    }
    hi
}

/// Whether `s[lo..hi]` equals `pat`, character for character.
fn str_range_eq(s: &str, lo: usize, hi: usize, pat: &str) -> (r: bool)
    requires
        lo <= hi <= s@.len(),
    ensures
        r == (s@.subrange(lo as int, hi as int) == pat@),
{
    let n = pat.unicode_len();
    if hi - lo != n {
        proof {
            assert(s@.subrange(lo as int, hi as int).len() == hi - lo);
        }
        return false;
    }
    let mut i: usize = 0;
    while i < n
        invariant
            0 <= i <= n,
            lo + n == hi,
            hi <= s@.len(),
            n == pat@.len(),
            forall|j: int| 0 <= j < i ==> s@[lo + j] == pat@[j],
        decreases n - i,
    {
        if s.get_char(lo + i) != pat.get_char(i) {
            proof {
                let sub = s@.subrange(lo as int, hi as int);
                assert(sub[i as int] == s@[lo + i]);
            }
            return false;
        }
        i += 1;
    }
    proof {
        assert(s@.subrange(lo as int, hi as int) =~= pat@);
    }
    true
}

/// One line of the file, given as `s[lo..hi]`, applied to the running
/// parser state `(section, org, token)`.
fn line_step_exec(
    s: &str,
    lo: usize,
    hi: usize,
    section: Section,
    org: Option<String>,
    token: Option<String>,
) -> (r: (Section, Option<String>, Option<String>))
    requires
        lo <= hi <= s@.len(),
    ensures
        ({
            let st = IniState {
                section: section,
                organization: crate::opt_view(org),
                auth_token: crate::opt_view(token),
            };
            let st2 = line_step(st, s@.subrange(lo as int, hi as int));
            r.0 == st2.section && crate::opt_view(r.1) == st2.organization && crate::opt_view(r.2)
                == st2.auth_token
        }),
{
    let ghost line = s@.subrange(lo as int, hi as int);
    let (a, b) = trim_range(s, lo, hi);
    let ghost t = trim(line);
    proof {
        assert(t == s@.subrange(a as int, b as int));
    }
    if b - a >= 2 && s.get_char(a) == '[' && s.get_char(b - 1) == ']' {
        proof {
            assert(t[0] == s@[a as int]);
            assert(t[t.len() - 1] == s@[b as int - 1]);
            assert(is_header(t));
        }
        if str_range_eq(s, a, b, "[auth]") {
            (Section::Auth, org, token)
        } else if str_range_eq(s, a, b, "[defaults]") {
            (Section::Defaults, org, token)
        } else {
            (Section::NoSection, org, token)
        }
    } else {
        proof {
            if t.len() >= 2 {
                assert(t[0] == s@[a as int]);
                assert(t[t.len() - 1] == s@[b as int - 1]);
            }
            assert(!is_header(t));
        }
        let e = find_eq_range(s, a, b);
        if e < b {
            let (k0, k1) = trim_range(s, a, e);
            let (v0, v1) = trim_range(s, e + 1, b);
            proof {
                assert(t.take(find_eq(t)) =~= s@.subrange(a as int, e as int));
                assert(t.skip(find_eq(t) + 1) =~= s@.subrange(e as int + 1, b as int));
            }
            let is_token = match section {
                Section::Auth => str_range_eq(s, k0, k1, "token"),
                _ => false,
            };
            if is_token {
                let v = s.substring_char(v0, v1).to_owned();
                return (section, org, Some(v));
            }
            let is_org = match section {
                Section::Defaults => str_range_eq(s, k0, k1, "org"),
                _ => false,
            };
            if is_org {
                let v = s.substring_char(v0, v1).to_owned();
                return (section, Some(v), token);
            }
            (section, org, token)
        } else {
            proof {
                assert(find_eq(t) >= t.len());
            }
            (section, org, token)
        }
    }
}

/// Parses the whole fallback file into the organization and auth token it
/// defines, exactly as `ini_state_of` describes.
pub fn parse_ini_text(content: &str) -> (r: (Option<String>, Option<String>))
    ensures
        crate::opt_view(r.0) == ini_state_of(content@).organization,
        crate::opt_view(r.1) == ini_state_of(content@).auth_token,
{
    let n = content.unicode_len();
    let mut section = Section::NoSection;
    let mut org: Option<String> = None;
    let mut token: Option<String> = None;
    let mut line_start: usize = 0;
    let mut i: usize = 0;
    proof {
        assert(content@.skip(0) =~= content@);
        assert(content@.subrange(0, 0) =~= Seq::<char>::empty());
    }
    while i < n
        invariant
            line_start <= i <= n,
            n == content@.len(),
            parse_from(content@, Seq::empty(), init_state()) == parse_from(
                content@.skip(i as int),
                content@.subrange(line_start as int, i as int),
                IniState {
                    section: section,
                    organization: crate::opt_view(org),
                    auth_token: crate::opt_view(token),
                },
            ),
        decreases n - i,
    {
        let ghost st = IniState {
            section: section,
            organization: crate::opt_view(org),
            auth_token: crate::opt_view(token),
        };
        let ghost cur = content@.subrange(line_start as int, i as int);
        let ch = content.get_char(i);
        proof {
            let rest = content@.skip(i as int);
            assert(rest[0] == content@[i as int]);
            assert(rest.skip(1) =~= content@.skip(i as int + 1));
        }
        if ch == '\n' {
            let (s2, o2, t2) = line_step_exec(content, line_start, i, section, org, token);
            section = s2;
            org = o2;
            token = t2;
            proof {
                let rest = content@.skip(i as int);
                assert(parse_from(rest, cur, st) == parse_from(
                    rest.skip(1),
                    Seq::empty(),
                    line_step(st, cur),
                ));
                assert(content@.subrange(i as int + 1, i as int + 1) =~= Seq::<char>::empty());
            }
            line_start = i + 1;
        } else {
            proof {
                let rest = content@.skip(i as int);
                assert(parse_from(rest, cur, st) == parse_from(
                    rest.skip(1),
                    cur.push(content@[i as int]),
                    st,
                ));
                assert(cur.push(content@[i as int]) =~= content@.subrange(
                    line_start as int,
                    i as int + 1,
                ));
            }
        }
        i += 1;
    }
    let ghost st = IniState {
        section: section,
        organization: crate::opt_view(org),
        auth_token: crate::opt_view(token),
    };
    let ghost cur = content@.subrange(line_start as int, n as int);
    proof {
        assert(content@.skip(n as int) =~= Seq::<char>::empty());
        assert(parse_from(content@.skip(n as int), cur, st) == line_step(st, cur));
    }
    let (_s2, o2, t2) = line_step_exec(content, line_start, n, section, org, token);
    (o2, t2)
}

} // verus!
