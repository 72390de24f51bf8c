//! The platform at hand.

pub mod release_laws;
pub mod when;
pub mod when_laws;

use crate::text::{
    char_is_hex, char_is_space, chars_of, chars_trim, concat3, concat5, copy_str, decimal,
    find_first, first_index, from_chars, has_prefix, is_digit, is_hex, is_space, join,
    join_strings, lemma_first_index, lines, opt_view, push_copy, str_eq, str_lines,
    str_starts_with, str_trim, sub_chars, trim, u64_to_string, views,
};
use vstd::prelude::*;

verus! {

#[derive(Debug)]
pub enum Os {
    Linux,
    Macos,
    Windows,
    Unknown(String),
}

#[derive(Debug)]
pub struct LinuxInfo {
    pub distro: Option<String>,
    pub distro_like: Vec<String>,
    pub version_id: Option<String>,
    pub variant_id: Option<String>,
}

#[derive(Debug)]
pub struct MacosInfo {
    pub product_version: String,
    pub build_version: String,
}

#[derive(Debug)]
pub struct WindowsInfo {
    pub product_name: String,
    pub version: String,
    pub edition: Option<String>,
}

/// The platform at hand, with what is known of it.
#[derive(Debug)]
pub struct PlatformInfo {
    pub os: Os,
    pub linux: Option<LinuxInfo>,
    pub macos: Option<MacosInfo>,
    pub windows: Option<WindowsInfo>,
}

impl Default for LinuxInfo {
    fn default() -> (r: Self)
        ensures
            r@ == no_linux_info(),
    {
        let r = LinuxInfo {
            distro: None,
            distro_like: Vec::new(),
            version_id: None,
            variant_id: None,
        };
        assert(views(r.distro_like@) =~= Seq::<Seq<char>>::empty());
        r
    }
}

/// What is known of a Linux system, with texts as sequences.
pub struct LinuxView {
    pub distro: Option<Seq<char>>,
    pub distro_like: Seq<Seq<char>>,
    pub version_id: Option<Seq<char>>,
    pub variant_id: Option<Seq<char>>,
}

impl View for LinuxInfo {
    type V = LinuxView;

    open spec fn view(&self) -> LinuxView {
        LinuxView {
            distro: opt_view(self.distro),
            distro_like: views(self.distro_like@),
            version_id: opt_view(self.version_id),
            variant_id: opt_view(self.variant_id),
        }
    }
}

pub open spec fn no_linux_info() -> LinuxView {
    LinuxView { distro: None, distro_like: Seq::empty(), version_id: None, variant_id: None }
}

// ---------------------------------------------------------------------------
// Words
// ---------------------------------------------------------------------------

/// Number of characters before the first white space.
pub open spec fn word_len(s: Seq<char>) -> nat
    decreases s.len(),
{
    if s.len() == 0 || is_space(s[0]) {
        0
    } else {
        1 + word_len(s.skip(1))
    }
}

pub proof fn lemma_word_len(s: Seq<char>)
    ensures
        word_len(s) <= s.len(),
    decreases s.len(),
{
    if s.len() > 0 && !is_space(s[0]) {
        lemma_word_len(s.skip(1));
    }
}

/// The parts of a text between white space.
pub open spec fn words(s: Seq<char>) -> Seq<Seq<char>>
    decreases s.len(),
{
    if s.len() == 0 {
        Seq::empty()
    } else if is_space(s[0]) {
        words(s.skip(1))
    } else {
        let n = word_len(s);
        if 0 < n <= s.len() {
            seq![s.take(n as int)] + words(s.skip(n as int))
        } else {
            Seq::empty()
        }
    }
}

fn count_word(v: &[char], from: usize) -> (r: usize)
    requires
        from <= v@.len(),
    ensures
        r == word_len(v@.skip(from as int)),
        from + r <= v@.len(),
{
    let ghost rest = v@.skip(from as int);
    let end: usize = v.len();
    let total: usize = end - from;
    let mut n: usize = 0;
    assert(rest.skip(0) =~= rest);
    while n < total && !char_is_space(v[from + n])
        invariant
            n <= total,
            end == v@.len(),
            total == end - from,
            from <= end,
            rest == v@.skip(from as int),
            word_len(rest) == n + word_len(rest.skip(n as int)),
        decreases total - n,
    {
        proof {
            assert(rest.skip(n as int)[0] == v@[from + n]);
            assert(rest.skip(n as int).skip(1) =~= rest.skip(n + 1));
        }
        n += 1;
    }
    proof {
        if n < total {
            assert(rest.skip(n as int)[0] == v@[from + n]);
        }
    }
    n
}

pub fn chars_words(v: &[char]) -> (r: Vec<String>)
    ensures
        views(r@) == words(v@),
{
    let mut r: Vec<String> = Vec::new();
    let mut i: usize = 0;
    assert(v@.skip(0) =~= v@);
    assert(views(r@) + words(v@) =~= words(v@));
    while i < v.len()
        invariant
            i <= v@.len(),
            words(v@) == views(r@) + words(v@.skip(i as int)),
        decreases v@.len() - i,
    {
        let ghost rest = v@.skip(i as int);
        assert(rest[0] == v@[i as int]);
        if char_is_space(v[i]) {
            assert(rest.skip(1) =~= v@.skip(i + 1));
            i += 1;
        } else {
            let n = count_word(v, i);
            proof {
                lemma_word_len(rest);
                assert(n > 0) by {
                    assert(word_len(rest) == 1 + word_len(rest.skip(1)));
                }
            }
            let word = sub_chars(v, i, i + n);
            let text = from_chars(&word);
            let ghost before = views(r@);
            push_copy(&mut r, text.as_str());
            proof {
                assert(word@ =~= rest.take(n as int));
                assert(rest.skip(n as int) =~= v@.skip(i + n));
                assert(before + (seq![text@] + words(v@.skip(i + n))) =~= before.push(text@)
                    + words(v@.skip(i + n)));
            }
            i += n;
        }
    }
    assert(v@.skip(i as int) =~= Seq::<char>::empty());
    assert(views(r@) + words(v@.skip(i as int)) =~= views(r@));
    r
}

// ---------------------------------------------------------------------------
// Linux
// ---------------------------------------------------------------------------

/// A value without the quotes around it.
pub open spec fn unquoted(value: Seq<char>) -> Seq<char> {
    if value.len() >= 2 && (value[0] == '"' && value.last() == '"' || value[0] == '\''
        && value.last() == '\'') {
        value.subrange(1, value.len() - 1)
    } else {
        value
    }
}

fn unquote_os_release_value(value: &[char]) -> (r: Vec<char>)
    ensures
        r@ == unquoted(value@),
{
    let n: usize = value.len();
    if n >= 2 && ((value[0] == '"' && value[n - 1] == '"') || (value[0] == '\'' && value[n - 1]
        == '\'')) {
        let r = sub_chars(value, 1, n - 1);
        assert(r@ =~= unquoted(value@));
        r
    } else {
        let r = sub_chars(value, 0, n);
        assert(r@ =~= value@);
        r
    }
}

/// What one line adds.
pub open spec fn release_step(info: LinuxView, line: Seq<char>) -> LinuxView {
    let t = trim(line);
    let i = first_index(t, '=');
    if t.len() == 0 || t[0] == '#' || !(0 <= i < t.len()) {
        info
    } else {
        let key = t.take(i);
        let value = unquoted(trim(t.skip(i + 1)));
        if key == "ID"@ {
            LinuxView { distro: Some(value), ..info }
        } else if key == "ID_LIKE"@ {
            LinuxView { distro_like: words(value), ..info }
        } else if key == "VERSION_ID"@ {
            LinuxView { version_id: Some(value), ..info }
        } else if key == "VARIANT_ID"@ {
            LinuxView { variant_id: Some(value), ..info }
        } else {
            info
        }
    }
}

/// What the lines say; of several values for a key the last counts.
pub open spec fn release_info(l: Seq<Seq<char>>) -> LinuxView
    decreases l.len(),
{
    if l.len() == 0 {
        no_linux_info()
    } else {
        release_step(release_info(l.drop_last()), l.last())
    }
}

fn read_release_line(info: LinuxInfo, line: &str) -> (r: LinuxInfo)
    ensures
        r@ == release_step(info@, line@),
{
    let text = str_trim(line);
    let t = chars_of(text.as_str());
    let i = find_first(&t, '=');
    proof {
        lemma_first_index(t@, '=');
    }
    if t.len() == 0 || t[0] == '#' || i >= t.len() {
        return info;
    }
    let key_chars = sub_chars(&t, 0, i);
    let raw = sub_chars(&t, i + 1, t.len());
    proof {
        assert(key_chars@ =~= t@.take(i as int));
        assert(raw@ =~= t@.skip(i + 1));
    }
    let trimmed = chars_trim(&raw);
    let value = unquote_os_release_value(&trimmed);
    let key = from_chars(&key_chars);
    let mut r = info;
    if str_eq(key.as_str(), "ID") {
        r.distro = Some(from_chars(&value));
    } else if str_eq(key.as_str(), "ID_LIKE") {
        r.distro_like = chars_words(&value);
    } else if str_eq(key.as_str(), "VERSION_ID") {
        r.version_id = Some(from_chars(&value));
    } else if str_eq(key.as_str(), "VARIANT_ID") {
        r.variant_id = Some(from_chars(&value));
    }
    r
}

/// Reads the file that describes a Linux system.
pub fn parse_os_release(content: &str) -> (r: LinuxInfo)
    ensures
        r@ == release_info(lines(content@)),
{
    let all = str_lines(content);
    let ghost l = views(all@);
    let mut info = LinuxInfo::default();
    let mut i: usize = 0;
    assert(l.take(0).len() == 0);
    while i < all.len()
        invariant
            i <= all@.len(),
            l == views(all@),
            info@ == release_info(l.take(i as int)),
        decreases all@.len() - i,
    {
        proof {
            assert(l.take(i + 1).drop_last() =~= l.take(i as int));
            assert(l.take(i + 1).last() == all@[i as int]@);
        }
        info = read_release_line(info, all[i].as_str());
        i += 1;
    }
    assert(l.take(i as int) =~= l);
    info
}

// ---------------------------------------------------------------------------
// Windows and macOS
// ---------------------------------------------------------------------------

pub open spec fn hex_value(c: char) -> nat {
    if is_digit(c) {
        (c as u32 - '0' as u32) as nat
    } else if 'a' <= c && c <= 'f' {
        (c as u32 - 'a' as u32 + 10) as nat
    } else {
        (c as u32 - 'A' as u32 + 10) as nat
    }
}

/// The number that hexadecimal digits denote.
pub open spec fn hex_digits_value(s: Seq<char>) -> nat
    decreases s.len(),
{
    if s.len() == 0 {
        0
    } else {
        16 * hex_digits_value(s.drop_last()) + hex_value(s.last())
    }
}

pub open spec fn all_hex(s: Seq<char>) -> bool {
    forall|i: int| 0 <= i < s.len() ==> is_hex(#[trigger] s[i])
}

/// What reading a hexadecimal number of 64 bits gives; a plus sign may stand before it.
pub open spec fn parse_hex(s: Seq<char>) -> Option<nat> {
    let digits = if s.len() > 1 && s[0] == '+' {
        s.skip(1)
    } else {
        s
    };
    if digits.len() > 0 && all_hex(digits) && hex_digits_value(digits) <= u64::MAX {
        Some(hex_digits_value(digits))
    } else {
        None
    }
}

proof fn lemma_hex_grows(s: Seq<char>, k: int)
    requires
        0 <= k <= s.len(),
    ensures
        hex_digits_value(s.take(k)) <= hex_digits_value(s),
    decreases s.len() - k,
{
    if k < s.len() {
        assert(s.drop_last().take(k) =~= s.take(k));
        lemma_hex_grows(s.drop_last(), k);
    } else {
        assert(s.take(k) =~= s);
    }
}

fn hex_digit(c: char) -> (r: u64)
    requires
        is_hex(c),
    ensures
        r == hex_value(c),
        r < 16,
{
    if '0' <= c && c <= '9' {
        (c as u64) - ('0' as u64)
    } else if 'a' <= c && c <= 'f' {
        (c as u64) - ('a' as u64) + 10
    } else {
        (c as u64) - ('A' as u64) + 10
    }
}

fn read_hex(v: &[char]) -> (r: Option<u64>)
    ensures
        match r {
            Some(n) => parse_hex(v@) == Some(n as nat),
            None => parse_hex(v@) is None,
        },
{
    let start: usize = if v.len() > 1 && v[0] == '+' {
        1
    } else {
        0
    };
    let ghost digits = v@.skip(start as int);
    assert(start == 0 ==> digits =~= v@);
    if start == v.len() {
        return None;
    }
    let mut acc: u64 = 0;
    let mut i: usize = start;
    while i < v.len()
        invariant
            start <= i <= v@.len(),
            start < v@.len(),
            digits == v@.skip(start as int),
            digits == if v@.len() > 1 && v@[0] == '+' {
                v@.skip(1)
            } else {
                v@
            },
            forall|k: int| start <= k < i ==> is_hex(v@[k]),
            acc == hex_digits_value(digits.take(i - start)),
        decreases v@.len() - i,
    {
        let c = v[i];
        assert(digits[i - start] == c);
        if !char_is_hex(c) {
            assert(!is_hex(digits[i - start]));
            return None;
        }
        let d = hex_digit(c);
        proof {
            let next = digits.take(i - start + 1);
            assert(next.drop_last() =~= digits.take(i - start));
            assert(next.last() == c);
            lemma_hex_grows(digits, i - start + 1);
            assert(hex_digits_value(next) == 16 * acc + d);
        }
        if acc > (0xffff_ffff_ffff_ffff - d) / 16 {
            return None;
        }
        acc = acc * 16 + d;
        i += 1;
    }
    assert(digits.take(i - start) =~= digits);
    assert forall|k: int| 0 <= k < digits.len() implies is_hex(#[trigger] digits[k]) by {
        assert(digits[k] == v@[start + k]);
    }
    Some(acc)
}

/// A value of the registry as it is used: a number in decimal, anything else as it is.
pub open spec fn registry_text(kind: Seq<char>, value: Seq<char>) -> Seq<char> {
    if kind == "REG_DWORD"@ && (has_prefix(value, "0x"@) || has_prefix(value, "0X"@)) && parse_hex(
        value.skip(2),
    ) is Some {
        decimal(parse_hex(value.skip(2))->0)
    } else {
        value
    }
}

/// What the lines that follow say of a value: the first line that starts with the name and holds
/// a value. A line with nothing but the name ends the search.
pub open spec fn registry_value(l: Seq<Seq<char>>, name: Seq<char>) -> Option<Seq<char>>
    decreases l.len(),
{
    if l.len() == 0 {
        None
    } else {
        let w = words(l[0]);
        if w.len() == 0 || w[0] != name {
            registry_value(l.skip(1), name)
        } else if w.len() == 1 {
            None
        } else {
            let value = join(w.skip(2), " "@);
            if value.len() == 0 {
                registry_value(l.skip(1), name)
            } else {
                Some(registry_text(w[1], value))
            }
        }
    }
}

fn read_registry_text(kind: &str, value: &str) -> (r: String)
    ensures
        r@ == registry_text(kind@, value@),
{
    if str_eq(kind, "REG_DWORD") && (str_starts_with(value, "0x") || str_starts_with(value, "0X")) {
        let v = chars_of(value);
        proof {
            reveal_strlit("0x");
            reveal_strlit("0X");
        }
        let rest = sub_chars(&v, 2, v.len());
        assert(rest@ =~= value@.skip(2));
        if let Some(n) = read_hex(&rest) {
            return u64_to_string(n);
        }
    }
    copy_str(value)
}

fn skip_two(v: &Vec<String>) -> (r: Vec<String>)
    requires
        v@.len() >= 2,
    ensures
        views(r@) == views(v@).skip(2),
{
    let mut r: Vec<String> = Vec::new();
    let mut i: usize = 2;
    while i < v.len()
        invariant
            2 <= i <= v@.len(),
            r@.len() == i - 2,
            forall|k: int| 0 <= k < r@.len() ==> (#[trigger] r@[k])@ == v@[k + 2]@,
        decreases v@.len() - i,
    {
        r.push(copy_str(v[i].as_str()));
        i += 1;
    }
    assert(views(r@) =~= views(v@).skip(2));
    r
}

/// Reads a value out of what the registry tool prints.
pub fn parse_windows_registry_value(output: &str, name: &str) -> (r: Option<String>)
    ensures
        opt_view(r) == registry_value(lines(output@), name@),
{
    let all = str_lines(output);
    let ghost l = views(all@);
    let mut i: usize = 0;
    assert(l.skip(0) =~= l);
    while i < all.len()
        invariant
            i <= all@.len(),
            l == views(all@),
            registry_value(l, name@) == registry_value(l.skip(i as int), name@),
            l == lines(output@),
        decreases all@.len() - i,
    {
        let line = chars_of(all[i].as_str());
        let w = chars_words(&line);
        proof {
            assert(l.skip(i as int)[0] == all@[i as int]@);
            assert(l.skip(i as int).skip(1) =~= l.skip(i + 1));
            assert(views(w@).len() == w@.len());
            if w@.len() > 0 {
                assert(views(w@)[0] == w@[0]@);
            }
            if w@.len() > 1 {
                assert(views(w@)[1] == w@[1]@);
            }
        }
        if w.len() > 0 && str_eq(w[0].as_str(), name) {
            if w.len() == 1 {
                return None;
            }
            let rest = skip_two(&w);
            let value = join_strings(&rest, " ");
            if !value.as_str().is_empty() {
                return Some(read_registry_text(w[1].as_str(), value.as_str()));
            }
        }
        i += 1;
    }
    None
}

pub open spec fn windows_version(
    major: Option<Seq<char>>,
    minor: Option<Seq<char>>,
    build: Option<Seq<char>>,
    current: Option<Seq<char>>,
) -> Seq<char> {
    match (major, minor, build) {
        (Some(a), Some(b), Some(c)) => a + "."@ + b + "."@ + c,
        (Some(a), None, Some(c)) => a + ".0."@ + c,
        _ => match current {
            Some(v) => v,
            None => ""@,
        },
    }
}

/// The version of a Windows system, from the values of its registry.
pub fn detect_windows_version(
    major: &Option<String>,
    minor: &Option<String>,
    build: &Option<String>,
    current: &Option<String>,
) -> (r: String)
    ensures
        r@ == windows_version(
            opt_view(*major),
            opt_view(*minor),
            opt_view(*build),
            opt_view(*current),
        ),
{
    match (major, minor, build) {
        (Some(a), Some(b), Some(c)) => concat5(a.as_str(), ".", b.as_str(), ".", c.as_str()),
        (Some(a), None, Some(c)) => concat3(a.as_str(), ".0.", c.as_str()),
        _ => match current {
            Some(v) => copy_str(v.as_str()),
            None => copy_str(""),
        },
    }
}

/// What a tool printed without white space around it; nothing where nothing is left.
pub fn tool_output(text: &str) -> (r: Option<String>)
    ensures
        opt_view(r) == if trim(text@).len() == 0 {
            None
        } else {
            Some(trim(text@))
        },
{
    let t = str_trim(text);
    if t.as_str().is_empty() {
        None
    } else {
        Some(t)
    }
}

/// The name of the system that the program was built for.
pub fn current_os_name(target_os: &str) -> (r: &'static str)
    ensures
        r@ == if target_os@ == "macos"@ || target_os@ == "linux"@ || target_os@ == "windows"@ {
            target_os@
        } else {
            "unknown"@
        },
{
    if str_eq(target_os, "macos") {
        "macos"
    } else if str_eq(target_os, "linux") {
        "linux"
    } else if str_eq(target_os, "windows") {
        "windows"
    } else {
        "unknown"
    }
}

/// The platform at hand: the system that the program was built for, with what was found out about
/// it. What was found out about others is left out.
pub fn current(
    target_os: &str,
    os_release: &Option<String>,
    macos: MacosInfo,
    windows: WindowsInfo,
) -> (r: PlatformInfo)
    ensures
        target_os@ == "linux"@ ==> r.os is Linux && r.linux is Some && r.macos is None
            && r.windows is None && (r.linux->0)@ == (match *os_release {
            Some(c) => release_info(lines(c@)),
            None => no_linux_info(),
        }),
        target_os@ == "macos"@ ==> r.os is Macos && r.linux is None && r.macos == Some(macos)
            && r.windows is None,
        target_os@ == "windows"@ ==> r.os is Windows && r.linux is None && r.macos is None
            && r.windows == Some(windows),
        target_os@ != "linux"@ && target_os@ != "macos"@ && target_os@ != "windows"@ ==> r.os
            is Unknown && r.os->Unknown_0@ == "unknown"@ && r.linux is None && r.macos is None
            && r.windows is None,
{
    proof {
        reveal_strlit("linux");
        reveal_strlit("macos");
        reveal_strlit("windows");
        assert("linux"@[0] != "macos"@[0] && "linux"@[0] != "windows"@[0] && "macos"@[0]
            != "windows"@[0]);
    }
    if str_eq(target_os, "linux") {
        let info = match os_release {
            Some(c) => parse_os_release(c.as_str()),
            None => LinuxInfo::default(),
        };
        PlatformInfo { os: Os::Linux, linux: Some(info), macos: None, windows: None }
    } else if str_eq(target_os, "macos") {
        PlatformInfo { os: Os::Macos, linux: None, macos: Some(macos), windows: None }
    } else if str_eq(target_os, "windows") {
        PlatformInfo { os: Os::Windows, linux: None, macos: None, windows: Some(windows) }
    } else {
        PlatformInfo {
            os: Os::Unknown(copy_str(current_os_name(target_os))),
            linux: None,
            macos: None,
            windows: None,
        }
    }
}

} // verus!
