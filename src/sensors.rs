//! Sensor readings: what the status bar makes of the text that a sensor
//! file or an external tool hands back.
use vstd::prelude::*;
use crate::text::{
    has_infix, is_white_space, parse_u32_chars, parse_u32_spec, push_char, to_chars, trim_chars,
    trimmed,
};

verus! {

broadcast use vstd::string::group_string_axioms;

/// Why a sensor gave no value.
#[derive(Debug, Clone, Copy, PartialEq, Eq, Structural)]
pub enum SensorError {
    /// The file, device or tool could not be read.
    Unavailable,
    /// What was read is not in the expected form.
    ParseFailure,
    /// The values were read but cannot be combined (a zero maximum).
    Invalid,
}

/// The text of a sensor file, when it could be read.
pub open spec fn text_of(file: Option<&str>) -> Option<Seq<char>> {
    match file {
        Some(t) => Some(t@),
        None => None,
    }
}

/// An integer sensor file: its whole text, trimmed, read as a `u32`.
pub open spec fn int_reading(file: Option<Seq<char>>) -> Result<u32, SensorError> {
    match file {
        None => Err(SensorError::Unavailable),
        Some(t) => match parse_u32_spec(trimmed(t)) {
            Some(v) => Ok(v),
            None => Err(SensorError::ParseFailure),
        },
    }
}

/// Reads the integer that a sensor file holds, such as a fan speed.
pub fn read_int(file: Option<&str>) -> (r: Result<u32, SensorError>)
    ensures
        r == int_reading(text_of(file)),
{
    match file {
        None => Err(SensorError::Unavailable),
        Some(t) => {
            let chars = to_chars(t);
            let inner = trim_chars(&chars);
            match parse_u32_chars(&inner) {
                Some(v) => Ok(v),
                None => Err(SensorError::ParseFailure),
            }
        },
    }
}

/// The fan speed in RPM, from the text of the fan's input file.
pub fn get_fan_speed(fan_input: Option<&str>) -> (r: Result<u32, SensorError>)
    ensures
        r == int_reading(text_of(fan_input)),
{
    read_int(fan_input)
}

/// Whether an interface has a carrier: its `carrier` file reads as the number 1.
pub fn check_interface_enable(carrier: Option<&str>) -> (r: bool)
    ensures
        r == (int_reading(text_of(carrier)) == Ok::<u32, SensorError>(1)),
{
    match read_int(carrier) {
        Ok(v) => v == 1,
        Err(_) => false,
    }
}

/// Whether an interface is up: its `operstate` file reads `up`, white space aside.
pub fn check_interface_up(operstate: Option<&str>) -> (r: bool)
    ensures
        r == (operstate is Some && trimmed(operstate->Some_0@) == seq!['u', 'p']),
{
    match operstate {
        None => false,
        Some(t) => {
            let chars = to_chars(t);
            let inner = trim_chars(&chars);
            inner.len() == 2 && inner[0] == 'u' && inner[1] == 'p' && {
                assert(inner@ =~= seq!['u', 'p']);
                true
            }
        },
    }
}

/// Backlight level as a whole percent of its maximum, rounded down.
pub open spec fn brightness_reading(
    current: Option<Seq<char>>,
    max: Option<Seq<char>>,
) -> Result<u64, SensorError> {
    match (int_reading(current), int_reading(max)) {
        (Err(e), _) => Err(e),
        (Ok(_), Err(e)) => Err(e),
        (Ok(c), Ok(m)) => if m == 0 {
            Err(SensorError::Invalid)
        } else {
            Ok(((c as int * 100) / m as int) as u64)
        },
    }
}

/// The backlight level in percent, from the texts of the `brightness` and
/// `max_brightness` files.
pub fn get_brightness(current: Option<&str>, max: Option<&str>) -> (r: Result<u64, SensorError>)
    ensures
        r == brightness_reading(text_of(current), text_of(max)),
{
    let c = match read_int(current) {
        Ok(v) => v,
        Err(e) => return Err(e),
    };
    let m = match read_int(max) {
        Ok(v) => v,
        Err(e) => return Err(e),
    };
    if m == 0 {
        return Err(SensorError::Invalid);
    }
    Ok((c as u64 * 100) / m as u64)
}


/// Group 1 of the leftmost-first match of the regular expression `pattern` in
/// `text`, as the `regex` crate finds it; nothing when the pattern does not
/// compile, does not match, or the group takes no part in the match.
pub uninterp spec fn regex_first_group(pattern: Seq<char>, text: Seq<char>) -> Option<Seq<char>>;

/// Relies on `regex::Regex::new` to compile `pattern` and on `Regex::captures`
/// and `Captures::get(1)` for the text of group 1 in the leftmost-first match.
#[verifier::external_body]
fn first_group(pattern: &str, text: &str) -> (r: Option<String>)
    ensures
        match r {
            Some(g) => regex_first_group(pattern@, text@) == Some(g@),
            None => regex_first_group(pattern@, text@) is None,
        },
{
    let re = regex::Regex::new(pattern).ok()?;
    re.captures(text).and_then(|caps| caps.get(1)).map(|m| m.as_str().to_string())
}

/// How the mixer reports a sink's volume: a slash, optional white space, the
/// percentage digits, a percent sign.
pub const VOLUME_PATTERN: &'static str = "/\\s*(\\d+)%";

/// The highest volume level; the mixer can report more when it amplifies.
pub const MAX_VOLUME: u32 = 100;

/// The volume that a captured percentage stands for: the number, capped at
/// 100 percent.
pub open spec fn volume_of_capture(capture: Option<Seq<char>>) -> Option<u32> {
    match capture {
        Some(d) => match parse_u32_spec(d) {
            Some(v) => Some(if v > MAX_VOLUME {
                MAX_VOLUME
            } else {
                v
            }),
            None => None,
        },
        None => None,
    }
}

/// Reads the volume from the digits that the volume pattern captured; a
/// level above 100 percent is capped at 100.
pub fn volume_from_capture(capture: Option<&str>) -> (r: Option<u32>)
    ensures
        r == volume_of_capture(text_of(capture)),
        r matches Some(v) ==> v <= MAX_VOLUME,
{
    match capture {
        None => None,
        Some(d) => {
            let chars = to_chars(d);
            match parse_u32_chars(&chars) {
                Some(v) => Some(if v > MAX_VOLUME {
                    MAX_VOLUME
                } else {
                    v
                }),
                None => None,
            }
        },
    }
}

/// The volume level in the mixer's `get-sink-volume` output: the first
/// percentage after a slash, capped at 100. Nothing when there is none, as
/// when no default sink exists.
pub fn get_volume(mixer_output: &str) -> (r: Option<u32>)
    ensures
        r == volume_of_capture(regex_first_group(VOLUME_PATTERN@, mixer_output@)),
        r matches Some(v) ==> v <= MAX_VOLUME,
{
    match first_group(VOLUME_PATTERN, mixer_output) {
        None => None,
        Some(g) => volume_from_capture(Some(g.as_str())),
    }
}

/// The index of the first line feed in `s`, or its length when there is none.
pub open spec fn line_end(s: Seq<char>) -> nat
    decreases s.len(),
{
    if s.len() == 0 || s[0] == '\n' {
        0
    } else {
        1 + line_end(s.drop_first())
    }
}

/// `s` without its leading run of characters other than white space.
pub open spec fn drop_word(s: Seq<char>) -> Seq<char>
    decreases s.len(),
{
    if s.len() > 0 && !is_white_space(s[0]) {
        drop_word(s.drop_first())
    } else {
        s
    }
}

/// What follows the first white-space-delimited token of a line, from the
/// start of the second token on.
pub open spec fn from_second_token(line: Seq<char>) -> Seq<char> {
    crate::text::trim_front(drop_word(crate::text::trim_front(line)))
}

/// The first two characters of the token that `c` starts with (one when the
/// token is a single character).
pub open spec fn token_prefix2(c: Seq<char>) -> Seq<char> {
    if c.len() >= 2 && !is_white_space(c[1]) {
        seq![c[0], c[1]]
    } else {
        seq![c[0]]
    }
}

/// `char::to_ascii_uppercase`: a-z become A-Z, other characters stay.
pub open spec fn ascii_upper(c: char) -> char {
    if 'a' <= c && c <= 'z' {
        ((c as u32 - 32) as u32) as char
    } else {
        c
    }
}

/// Relies on `char::to_ascii_uppercase`.
#[verifier::external_body]
fn upper_ascii(c: char) -> (r: char)
    ensures
        r == ascii_upper(c),
{
    c.to_ascii_uppercase()
}

/// The label that begins the VPN client's host line.
pub open spec fn hostname_label() -> Seq<char> {
    seq!['H', 'o', 's', 't', 'n', 'a', 'm', 'e', ':']
}

/// The country code of one line of VPN status: for a line that begins with
/// `Hostname:` and has a second token, that token's first two characters in
/// upper case.
pub open spec fn hostname_code(line: Seq<char>) -> Option<Seq<char>> {
    if line.len() >= 9 && line.subrange(0, 9) == hostname_label() && from_second_token(line).len()
        > 0 {
        Some(token_prefix2(from_second_token(line)).map_values(|c: char| ascii_upper(c)))
    } else {
        None
    }
}

/// The country code of the first line of `s` that yields one.
pub open spec fn country_code_of(s: Seq<char>) -> Option<Seq<char>>
    decreases s.len(),
{
    let e = line_end(s);
    match hostname_code(s.subrange(0, e as int)) {
        Some(c) => Some(c),
        None => if e < s.len() {
            country_code_of(s.subrange(e + 1 as int, s.len() as int))
        } else {
            None
        },
    }
}

/// The first position from `i` on in `v` that holds no white space.
fn skip_spaces(v: &Vec<char>, i: usize) -> (p: usize)
    requires
        i <= v@.len(),
    ensures
        i <= p <= v@.len(),
        crate::text::trim_front(v@.subrange(i as int, v@.len() as int)) == v@.subrange(
            p as int,
            v@.len() as int,
        ),
{
    let mut p = i;
    while p < v.len() && crate::text::is_space(v[p])
        invariant
            i <= p <= v@.len(),
            crate::text::trim_front(v@.subrange(i as int, v@.len() as int))
                == crate::text::trim_front(v@.subrange(p as int, v@.len() as int)),
        decreases v@.len() - p,
    {
        assert(v@.subrange(p as int, v@.len() as int).drop_first() =~= v@.subrange(
            p + 1,
            v@.len() as int,
        ));
        p = p + 1;
    }
    p
}

/// The first position from `i` on in `v` that holds white space.
fn skip_word(v: &Vec<char>, i: usize) -> (p: usize)
    requires
        i <= v@.len(),
    ensures
        i <= p <= v@.len(),
        drop_word(v@.subrange(i as int, v@.len() as int)) == v@.subrange(p as int, v@.len() as int),
{
    let mut p = i;
    while p < v.len() && !crate::text::is_space(v[p])
        invariant
            i <= p <= v@.len(),
            drop_word(v@.subrange(i as int, v@.len() as int)) == drop_word(
                v@.subrange(p as int, v@.len() as int),
            ),
        decreases v@.len() - p,
    {
        assert(v@.subrange(p as int, v@.len() as int).drop_first() =~= v@.subrange(
            p + 1,
            v@.len() as int,
        ));
        p = p + 1;
    }
    p
}

/// The country code of one line, as `hostname_code` gives it.
fn line_code(line: &Vec<char>) -> (r: Option<String>)
    ensures
        match r {
            Some(c) => hostname_code(line@) == Some(c@),
            None => hostname_code(line@) is None,
        },
{
    let n = line.len();
    if n < 9 || !(line[0] == 'H' && line[1] == 'o' && line[2] == 's' && line[3] == 't' && line[4]
        == 'n' && line[5] == 'a' && line[6] == 'm' && line[7] == 'e' && line[8] == ':') {
        assert(n >= 9 ==> line@.subrange(0, 9)[0] == line@[0] && line@.subrange(0, 9)[1]
            == line@[1] && line@.subrange(0, 9)[2] == line@[2] && line@.subrange(0, 9)[3]
            == line@[3] && line@.subrange(0, 9)[4] == line@[4] && line@.subrange(0, 9)[5]
            == line@[5] && line@.subrange(0, 9)[6] == line@[6] && line@.subrange(0, 9)[7]
            == line@[7] && line@.subrange(0, 9)[8] == line@[8]);
        return None;
    }
    assert(line@.subrange(0, 9) =~= hostname_label());
    let lead = skip_spaces(line, 0);
    assert(line@.subrange(0, n as int) =~= line@);
    let gap = skip_word(line, lead);
    let tok = skip_spaces(line, gap);
    assert(from_second_token(line@) == line@.subrange(tok as int, n as int));
    if tok == n {
        return None;
    }
    let mut out = String::new();
    push_char(&mut out, upper_ascii(line[tok]));
    if tok + 1 < n && !crate::text::is_space(line[tok + 1]) {
        push_char(&mut out, upper_ascii(line[tok + 1]));
    }
    assert(out@ =~= token_prefix2(from_second_token(line@)).map_values(|c: char| ascii_upper(c)));
    Some(out)
}

/// The country code in the VPN client's `status` output: from the first line
/// that begins with `Hostname:` and has a second token, that token's first two
/// characters in upper case.
pub fn get_country_code(status_output: &str) -> (r: Option<String>)
    ensures
        match r {
            Some(c) => country_code_of(status_output@) == Some(c@),
            None => country_code_of(status_output@) is None,
        },
{
    let s = to_chars(status_output);
    let n = s.len();
    let mut i: usize = 0;
    assert(s@.subrange(0, n as int) =~= s@);
    loop
        invariant
            n == s@.len(),
            s@ == status_output@,
            i <= n,
            country_code_of(s@.subrange(i as int, n as int)) == country_code_of(s@),
        decreases n - i,
    {
        let mut j: usize = i;
        let mut line: Vec<char> = Vec::new();
        while j < n && s[j] != '\n'
            invariant
                n == s@.len(),
                i <= j <= n,
                line@ == s@.subrange(i as int, j as int),
                line_end(s@.subrange(i as int, n as int)) == (j - i) + line_end(
                    s@.subrange(j as int, n as int),
                ),
            decreases n - j,
        {
            assert(s@.subrange(j as int, n as int).drop_first() =~= s@.subrange(
                j + 1,
                n as int,
            ));
            line.push(s[j]);
            j = j + 1;
            assert(line@ =~= s@.subrange(i as int, j as int));
        }
        let ghost rest = s@.subrange(i as int, n as int);
        assert(line_end(rest) == j - i);
        assert(rest.subrange(0, (j - i) as int) =~= line@);
        match line_code(&line) {
            Some(c) => {
                return Some(c);
            },
            None => {},
        }
        if j == n {
            return None;
        }
        assert(rest.subrange(j - i + 1, rest.len() as int) =~= s@.subrange(j + 1, n as int));
        i = j + 1;
    }
}


/// The run of characters other than white space that `s` starts with.
pub open spec fn leading_word(s: Seq<char>) -> Seq<char>
    decreases s.len(),
{
    if s.len() > 0 && !is_white_space(s[0]) {
        seq![s[0]] + leading_word(s.drop_first())
    } else {
        Seq::empty()
    }
}

/// The run of characters other than white space that `s` ends with.
pub open spec fn trailing_word(s: Seq<char>) -> Seq<char>
    decreases s.len(),
{
    if s.len() > 0 && !is_white_space(s.last()) {
        trailing_word(s.drop_last()).push(s.last())
    } else {
        Seq::empty()
    }
}

/// The loopback address, whose lines are left out.
pub open spec fn loopback() -> Seq<char> {
    seq!['1', '2', '7', '.', '0', '.', '0', '.', '1']
}

/// The marker of an IPv4 address line.
pub open spec fn inet_marker() -> Seq<char> {
    seq!['i', 'n', 'e', 't', ' ']
}

/// The entry of one line of `ip a` output: for a line that holds `inet `, does
/// not hold the loopback address and has a second token, its last token, a
/// space, its second token.
pub open spec fn ip_entry(line: Seq<char>) -> Option<Seq<char>> {
    if has_infix(line, inet_marker()) && !has_infix(line, loopback())
        && from_second_token(line).len() > 0 {
        Some(trailing_word(crate::text::trim_back(line)) + seq![' '] + leading_word(
            from_second_token(line),
        ))
    } else {
        None
    }
}

/// The entries of the lines of `s`, in order.
pub open spec fn ip_entries_of(s: Seq<char>) -> Seq<Seq<char>>
    decreases s.len(),
{
    let e = line_end(s);
    let head = match ip_entry(s.subrange(0, e as int)) {
        Some(x) => seq![x],
        None => Seq::empty(),
    };
    if e < s.len() {
        head + ip_entries_of(s.subrange(e + 1 as int, s.len() as int))
    } else {
        head
    }
}

/// The end of the run of characters other than white space from `i` on.
fn word_end(v: &Vec<char>, i: usize) -> (p: usize)
    requires
        i <= v@.len(),
    ensures
        i <= p <= v@.len(),
        leading_word(v@.subrange(i as int, v@.len() as int)) == v@.subrange(i as int, p as int),
{
    let mut p = i;
    while p < v.len() && !crate::text::is_space(v[p])
        invariant
            i <= p <= v@.len(),
            leading_word(v@.subrange(i as int, v@.len() as int)) == v@.subrange(i as int, p as int)
                + leading_word(v@.subrange(p as int, v@.len() as int)),
        decreases v@.len() - p,
    {
        assert(v@.subrange(p as int, v@.len() as int).drop_first() =~= v@.subrange(
            p + 1,
            v@.len() as int,
        ));
        assert(v@.subrange(i as int, p + 1) =~= v@.subrange(i as int, p as int) + seq![v@[p as int]]);
        p = p + 1;
    }
    assert(v@.subrange(i as int, p as int) + Seq::<char>::empty() =~= v@.subrange(i as int, p as int));
    p
}

/// The entry of one line, as `ip_entry` gives it.
fn line_ip_entry(line: &Vec<char>) -> (r: Option<String>)
    ensures
        match r {
            Some(x) => ip_entry(line@) == Some(x@),
            None => ip_entry(line@) is None,
        },
{
    let n = line.len();
    let inet: Vec<char> = vec!['i', 'n', 'e', 't', ' '];
    let lo: Vec<char> = vec!['1', '2', '7', '.', '0', '.', '0', '.', '1'];
    assert(inet@ =~= inet_marker());
    assert(lo@ =~= loopback());
    if !crate::text::contains_chars(line, &inet) || crate::text::contains_chars(line, &lo) {
        return None;
    }
    let lead = skip_spaces(line, 0);
    assert(line@.subrange(0, n as int) =~= line@);
    let gap = skip_word(line, lead);
    let tok = skip_spaces(line, gap);
    if tok == n {
        return None;
    }
    let tok_end = word_end(line, tok);
    // the last token: trailing white space dropped, then back to the previous space
    let mut j: usize = n;
    while j > 0 && crate::text::is_space(line[j - 1])
        invariant
            j <= n == line@.len(),
            crate::text::trim_back(line@.subrange(0, j as int)) == crate::text::trim_back(line@),
        decreases j,
    {
        assert(line@.subrange(0, j as int).drop_last() =~= line@.subrange(0, j - 1));
        j = j - 1;
    }
    let mut k: usize = j;
    while k > 0 && !crate::text::is_space(line[k - 1])
        invariant
            k <= j <= n == line@.len(),
            trailing_word(line@.subrange(0, j as int)) == trailing_word(line@.subrange(0, k as int))
                + line@.subrange(k as int, j as int),
        decreases k,
    {
        assert(line@.subrange(0, k as int).drop_last() =~= line@.subrange(0, k - 1));
        assert(line@.subrange(k - 1, j as int) =~= seq![line@[k - 1]] + line@.subrange(
            k as int,
            j as int,
        ));
        assert(trailing_word(line@.subrange(0, k - 1)).push(line@[k - 1]) + line@.subrange(
            k as int,
            j as int,
        ) =~= trailing_word(line@.subrange(0, k - 1)) + line@.subrange(k - 1, j as int));
        k = k - 1;
    }
    assert(trailing_word(line@.subrange(0, k as int)) =~= Seq::<char>::empty());
    assert(trailing_word(line@.subrange(0, j as int)) =~= line@.subrange(k as int, j as int));
    let mut out = String::new();
    let mut m: usize = k;
    while m < j
        invariant
            k <= m <= j <= n == line@.len(),
            out@ == line@.subrange(k as int, m as int),
        decreases j - m,
    {
        push_char(&mut out, line[m]);
        m = m + 1;
        assert(out@ =~= line@.subrange(k as int, m as int));
    }
    push_char(&mut out, ' ');
    let ghost first = out@;
    let mut m: usize = tok;
    while m < tok_end
        invariant
            tok <= m <= tok_end <= n == line@.len(),
            out@ == first + line@.subrange(tok as int, m as int),
        decreases tok_end - m,
    {
        push_char(&mut out, line[m]);
        m = m + 1;
        assert(out@ =~= first + line@.subrange(tok as int, m as int));
    }
    assert(from_second_token(line@) == line@.subrange(tok as int, n as int));
    assert(out@ =~= trailing_word(crate::text::trim_back(line@)) + seq![' '] + leading_word(
        from_second_token(line@),
    ));
    Some(out)
}

/// The addresses in the output of `ip a`: the output is trimmed, and each of
/// its lines that holds `inet `, does not hold `127.0.0.1` and has a second
/// token gives its last token, a space and its second token (the address with
/// its prefix length).
pub fn ip_addresses(ip_output: &str) -> (r: Vec<String>)
    ensures
        r@.map_values(|x: String| x@) == ip_entries_of(trimmed(ip_output@)),
{
    let all = to_chars(ip_output);
    let s = trim_chars(&all);
    let n = s.len();
    let ghost target = ip_entries_of(s@);
    let mut out: Vec<String> = Vec::new();
    let mut i: usize = 0;
    assert(s@.subrange(0, n as int) =~= s@);
    loop
        invariant
            n == s@.len(),
            s@ == trimmed(ip_output@),
            target == ip_entries_of(s@),
            i <= n,
            out@.map_values(|x: String| x@) + ip_entries_of(s@.subrange(i as int, n as int))
                == target,
        decreases n - i,
    {
        let mut j: usize = i;
        let mut line: Vec<char> = Vec::new();
        while j < n && s[j] != '\n'
            invariant
                n == s@.len(),
                i <= j <= n,
                line@ == s@.subrange(i as int, j as int),
                line_end(s@.subrange(i as int, n as int)) == (j - i) + line_end(
                    s@.subrange(j as int, n as int),
                ),
            decreases n - j,
        {
            assert(s@.subrange(j as int, n as int).drop_first() =~= s@.subrange(
                j + 1,
                n as int,
            ));
            line.push(s[j]);
            j = j + 1;
            assert(line@ =~= s@.subrange(i as int, j as int));
        }
        let ghost rest = s@.subrange(i as int, n as int);
        let ghost done = out@.map_values(|x: String| x@);
        assert(line_end(rest) == j - i);
        assert(rest.subrange(0, (j - i) as int) =~= line@);
        let ghost tail = if j < n {
            ip_entries_of(s@.subrange(j + 1, n as int))
        } else {
            Seq::<Seq<char>>::empty()
        };
        assert(j < n ==> rest.subrange(j - i + 1, rest.len() as int) =~= s@.subrange(
            j + 1,
            n as int,
        ));
        match line_ip_entry(&line) {
            Some(x) => {
                assert(ip_entries_of(rest) =~= seq![x@] + tail);
                out.push(x);
                assert(out@.map_values(|x: String| x@) =~= done.push(x@));
                assert(out@.map_values(|x: String| x@) + tail =~= done + ip_entries_of(rest));
            },
            None => {
                assert(ip_entries_of(rest) =~= tail);
            },
        }
        if j == n {
            assert(out@.map_values(|x: String| x@) =~= target);
            return out;
        }
        i = j + 1;
    }
}

}
