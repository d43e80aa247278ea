use vstd::prelude::*;
use crate::text::{chars_of, push_char, same_text, string_of};
use crate::torrent::TorrentStatus;
use crate::worker::{replace_all, replace_text};

verus! {

broadcast use vstd::seq_lib::group_seq_properties;

/// The last position before `end` that holds `c`, or -1.
pub open spec fn last_index_of(s: Seq<char>, c: char, end: int) -> int
    decreases end,
{
    if end <= 0 {
        -1
    } else if s[end - 1] == c {
        end - 1
    } else {
        last_index_of(s, c, end - 1)
    }
}

proof fn lemma_last_index_of(s: Seq<char>, c: char, end: int)
    requires
        0 <= end <= s.len(),
    ensures
        -1 <= last_index_of(s, c, end) < end,
        last_index_of(s, c, end) >= 0 ==> s[last_index_of(s, c, end)] == c,
        forall|j: int| last_index_of(s, c, end) < j < end ==> s[j] != c,
    decreases end,
{
    if end > 0 && s[end - 1] != c {
        lemma_last_index_of(s, c, end - 1);
    }
}

fn last_index_exec(s: &Vec<char>, c: char, end: usize) -> (r: Option<usize>)
    requires
        end <= s@.len(),
    ensures
        r matches Some(i) ==> i as int == last_index_of(s@, c, end as int),
        r is None ==> last_index_of(s@, c, end as int) == -1,
{
    let mut e: usize = end;
    while e > 0
        invariant
            e <= end <= s@.len(),
            last_index_of(s@, c, e as int) == last_index_of(s@, c, end as int),
        decreases e,
    {
        if s[e - 1] == c {
            return Some(e - 1);
        }
        e = e - 1;
    }
    None
}

/// The text after the last `/`, or all of it when there is none.
pub open spec fn last_segment(s: Seq<char>) -> Seq<char> {
    s.subrange(last_index_of(s, '/', s.len() as int) + 1, s.len() as int)
}

/// The last two `/`-separated parts, joined by `/`; the whole text when it
/// has a single part.
pub open spec fn last_two_segments(t: Seq<char>) -> Seq<char> {
    let l = last_index_of(t, '/', t.len() as int);
    if l < 0 {
        t
    } else {
        t.subrange(last_index_of(t, '/', l) + 1, t.len() as int)
    }
}

pub open spec fn strip_leading_slash(t: Seq<char>) -> Seq<char> {
    if t.len() > 0 && t[0] == '/' {
        t.subrange(1, t.len() as int)
    } else {
        t
    }
}

/// The short name a download directory is shown under: the base directory
/// itself shows as its last part; any other directory loses the base
/// directory and shows its last two parts.
pub open spec fn folder_label(s: Seq<char>, base: Seq<char>) -> Seq<char> {
    if s == base {
        last_segment(s)
    } else {
        last_two_segments(strip_leading_slash(replace_all(s, base, Seq::empty())))
    }
}

/// The short name a download directory is shown under.
pub fn process_folder(s: &str, base_dir: &str) -> (r: String)
    ensures
        r@ == folder_label(s@, base_dir@),
{
    if same_text(s, base_dir) {
        let cs = chars_of(s);
        proof {
            lemma_last_index_of(cs@, '/', cs@.len() as int);
        }
        let start = match last_index_exec(&cs, '/', cs.len()) {
            Some(i) => i + 1,
            None => 0,
        };
        let tail = slice_chars(&cs, start, cs.len());
        string_of(&tail)
    } else {
        let removed = replace_text(s, base_dir, "");
        proof {
            reveal_strlit("");
            assert(""@ =~= Seq::<char>::empty());
        }
        let mut t = chars_of(removed.as_str());
        let ghost before = t@;
        if t.len() > 0 && t[0] == '/' {
            t = slice_chars(&t, 1, t.len());
        }
        assert(t@ == strip_leading_slash(before));
        proof {
            lemma_last_index_of(t@, '/', t@.len() as int);
        }
        match last_index_exec(&t, '/', t.len()) {
            None => string_of(&t),
            Some(l) => {
                proof {
                    lemma_last_index_of(t@, '/', l as int);
                }
                let start = match last_index_exec(&t, '/', l) {
                    Some(p) => p + 1,
                    None => 0,
                };
                let tail = slice_chars(&t, start, t.len());
                string_of(&tail)
            },
        }
    }
}

/// The characters of `s` from `from` up to `to`.
pub fn slice_chars(s: &Vec<char>, from: usize, to: usize) -> (r: Vec<char>)
    requires
        from <= to <= s@.len(),
    ensures
        r@ == s@.subrange(from as int, to as int),
{
    let mut r: Vec<char> = Vec::new();
    let mut i: usize = from;
    while i < to
        invariant
            from <= i <= to <= s@.len(),
            r@ == s@.subrange(from as int, i as int),
        decreases to - i,
    {
        r.push(s[i]);
        i = i + 1;
    }
    r
}

/// The first `at` characters and the rest.
pub fn utf8_split(input: &str, at: usize) -> (r: (String, String))
    ensures
        r.0@ == input@.subrange(0, if at < input@.len() { at as int } else { input@.len() as int }),
        r.1@ == input@.subrange(if at < input@.len() { at as int } else { input@.len() as int }, input@.len() as int),
{
    let cs = chars_of(input);
    let cut = if at < cs.len() { at } else { cs.len() };
    let a = slice_chars(&cs, 0, cut);
    let b = slice_chars(&cs, cut, cs.len());
    (string_of(&a), string_of(&b))
}

/// Bytes the character takes in UTF-8.
fn char_width(c: char) -> (r: usize)
    ensures
        r == char_bytes(c),
{
    let v = c as u32;
    if v < 0x80 {
        1
    } else if v < 0x800 {
        2
    } else if v < 0x10000 {
        3
    } else {
        4
    }
}

/// Bytes a character takes in UTF-8, by code point range.
pub open spec fn char_bytes(c: char) -> nat {
    if (c as u32) < 0x80 {
        1
    } else if (c as u32) < 0x800 {
        2
    } else if (c as u32) < 0x10000 {
        3
    } else {
        4
    }
}

/// Bytes of a character sequence in UTF-8.
pub open spec fn bytes_of(s: Seq<char>) -> nat
    decreases s.len(),
{
    if s.len() == 0 {
        0
    } else {
        bytes_of(s.drop_last()) + char_bytes(s.last())
    }
}

/// Cuts `input` to its longest prefix of whole characters that takes fewer
/// than `maxsize` bytes in UTF-8; a string already shorter stays as it is.
pub fn utf8_truncate(input: &mut String, maxsize: usize)
    requires
        maxsize > 0,
    ensures
        exists|k: int| #![trigger old(input)@.subrange(0, k)]
            0 <= k <= old(input)@.len() && final(input)@ == old(input)@.subrange(0, k)
                && bytes_of(old(input)@.subrange(0, k)) < maxsize
                && (k == old(input)@.len() || bytes_of(old(input)@.subrange(0, k + 1)) >= maxsize),
{
    let cs = chars_of(input.as_str());
    let mut k: usize = 0;
    let mut used: usize = 0;
    proof {
        assert(cs@.subrange(0, 0).len() == 0);
    }
    while k < cs.len()
        invariant
            k <= cs@.len(),
            cs@ == old(input)@,
            *input == *old(input),
            used == bytes_of(cs@.subrange(0, k as int)),
            used < maxsize,
        decreases cs@.len() - k,
    {
        let w = char_width(cs[k]);
        proof {
            assert(cs@.subrange(0, k + 1).drop_last() == cs@.subrange(0, k as int));
        }
        if w >= maxsize - used {
            let kept = slice_chars(&cs, 0, k);
            *input = string_of(&kept);
            return;
        }
        used = used + w;
        k = k + 1;
    }
    proof {
        assert(cs@.subrange(0, cs@.len() as int) == cs@);
    }
}

/// Decimal digits of a natural number.
pub open spec fn decimal(n: nat) -> Seq<char>
    decreases n,
{
    if n < 10 {
        seq![digit_char(n)]
    } else {
        decimal(n / 10).push(digit_char(n % 10))
    }
}

pub open spec fn digit_char(d: nat) -> char {
    if d == 0 {
        '0'
    } else if d == 1 {
        '1'
    } else if d == 2 {
        '2'
    } else if d == 3 {
        '3'
    } else if d == 4 {
        '4'
    } else if d == 5 {
        '5'
    } else if d == 6 {
        '6'
    } else if d == 7 {
        '7'
    } else if d == 8 {
        '8'
    } else {
        '9'
    }
}

fn digit(d: u64) -> (c: char)
    requires
        d < 10,
    ensures
        c == digit_char(d as nat),
{
    if d == 0 {
        '0'
    } else if d == 1 {
        '1'
    } else if d == 2 {
        '2'
    } else if d == 3 {
        '3'
    } else if d == 4 {
        '4'
    } else if d == 5 {
        '5'
    } else if d == 6 {
        '6'
    } else if d == 7 {
        '7'
    } else if d == 8 {
        '8'
    } else {
        '9'
    }
}

/// Appends the decimal digits of `n`.
pub fn push_decimal(out: &mut String, n: u64)
    ensures
        final(out)@ == old(out)@ + decimal(n as nat),
    decreases n,
{
    if n < 10 {
        push_char(out, digit(n));
        assert(old(out)@.push(digit_char(n as nat)) =~= old(out)@ + decimal(n as nat));
    } else {
        push_decimal(out, n / 10);
        push_char(out, digit(n % 10));
        assert(old(out)@ + decimal((n / 10) as nat) + seq![digit_char((n % 10) as nat)] =~= old(out)@ + decimal(
            n as nat,
        ));
    }
}

/// How long a remaining time reads: nothing when unknown (-1), `∞` when it
/// never ends (-2), else its two largest units.
pub open spec fn eta_text(secs: int) -> Seq<char> {
    if secs == -1 {
        Seq::empty()
    } else if secs == -2 {
        "∞"@
    } else if secs < 0 {
        let r = (-secs) % 60;
        if r == 0 {
            decimal(0) + "s"@
        } else {
            "-"@ + decimal(r as nat) + "s"@
        }
    } else {
        let days = secs / 86400;
        let rest = secs % 86400;
        let hours = rest / 3600;
        let rest2 = rest % 3600;
        let minutes = rest2 / 60;
        let s = rest2 % 60;
        if days > 0 {
            decimal(days as nat) + "d "@ + decimal(hours as nat) + "h"@
        } else if hours > 0 {
            decimal(hours as nat) + "h "@ + decimal(minutes as nat) + "m"@
        } else if minutes > 0 {
            decimal(minutes as nat) + "m "@ + decimal(s as nat) + "s"@
        } else {
            decimal(s as nat) + "s"@
        }
    }
}

/// A remaining time for the main list. Any other negative time shows its
/// seconds below the minute, as integer division toward zero leaves them.
pub fn format_eta(secs: i64) -> (r: String)
    ensures
        r@ == eta_text(secs as int),
{
    if secs == -1 {
        String::new()
    } else if secs == -2 {
        String::from_str("∞")
    } else if secs < 0 {
        let neg: i128 = -(secs as i128);
        let r = (neg % 60) as u64;
        let mut out = String::new();
        if r != 0 {
            out.append("-");
        }
        push_decimal(&mut out, r);
        out.append("s");
        proof {
            reveal_strlit("-");
            reveal_strlit("s");
        }
        out
    } else {
        let days = (secs / 86400) as u64;
        let rest = secs % 86400;
        let hours = (rest / 3600) as u64;
        let rest2 = rest % 3600;
        let minutes = (rest2 / 60) as u64;
        let s = (rest2 % 60) as u64;
        let mut out = String::new();
        if days > 0 {
            push_decimal(&mut out, days);
            out.append("d ");
            push_decimal(&mut out, hours);
            out.append("h");
        } else if hours > 0 {
            push_decimal(&mut out, hours);
            out.append("h ");
            push_decimal(&mut out, minutes);
            out.append("m");
        } else if minutes > 0 {
            push_decimal(&mut out, minutes);
            out.append("m ");
            push_decimal(&mut out, s);
            out.append("s");
        } else {
            push_decimal(&mut out, s);
            out.append("s");
        }
        out
    }
}

/// The glyph of a status column; any error shows as the error glyph.
pub fn format_status(x: &TorrentStatus, err: i64) -> (r: &'static str)
    ensures
        err != 0 ==> r@ == " ⁈"@,
        err == 0 ==> r@ == match *x {
            TorrentStatus::Paused => " ⏸ "@,
            TorrentStatus::VerifyQueued => " 🗘"@,
            TorrentStatus::Verifying => " 🗘"@,
            TorrentStatus::DownQueued => " ⇩"@,
            TorrentStatus::Downloading => " ⇣"@,
            TorrentStatus::SeedQueued => " ⇧"@,
            TorrentStatus::Seeding => " ⇡"@,
        },
{
    if err != 0 {
        " ⁈"
    } else {
        match x {
            TorrentStatus::Paused => " ⏸ ",
            TorrentStatus::VerifyQueued => " 🗘",
            TorrentStatus::Verifying => " 🗘",
            TorrentStatus::DownQueued => " ⇩",
            TorrentStatus::Downloading => " ⇣",
            TorrentStatus::SeedQueued => " ⇧",
            TorrentStatus::Seeding => " ⇡",
        }
    }
}

/// `n / 2^shift` to one decimal place, rounding half to even as float
/// formatting of the exact quotient does: the result in tenths.
pub open spec fn tenths(n: nat, unit: nat) -> nat {
    let q = (n * 10) / unit;
    let rem = (n * 10) % unit;
    if rem * 2 > unit || (rem * 2 == unit && q % 2 == 1) {
        q + 1
    } else {
        q
    }
}

pub open spec fn one_decimal(t: nat) -> Seq<char> {
    decimal(t / 10) + "."@ + decimal(t % 10)
}

fn tenths_exec(n: u64, unit: u64) -> (r: u64)
    requires
        unit > 0,
        n <= 0x8000_0000_0000_0000,
        unit >= 1024,
    ensures
        r == tenths(n as nat, unit as nat),
{
    let n10: u128 = n as u128 * 10;
    let q: u128 = n10 / unit as u128;
    let rem: u128 = n10 % unit as u128;
    assert(q <= n10 / 1024) by (nonlinear_arith)
        requires unit >= 1024, q == n10 / unit as u128;
    assert(q < 0xffff_ffff_ffff_ffff);
    if rem * 2 > unit as u128 || (rem * 2 == unit as u128 && q % 2 == 1) {
        (q + 1) as u64
    } else {
        q as u64
    }
}

fn push_one_decimal(out: &mut String, t: u64)
    ensures
        final(out)@ == old(out)@ + one_decimal(t as nat),
{
    push_decimal(out, t / 10);
    out.append(".");
    push_decimal(out, t % 10);
    proof {
        reveal_strlit(".");
    }
}

pub const KIB: u64 = 1024;
pub const MIB: u64 = 1024 * 1024;
pub const GIB: u64 = 1024 * 1024 * 1024;
pub const TIB: u64 = 1024 * 1024 * 1024 * 1024;

/// A size in bytes as the main list shows it: nothing for zero, else in the
/// largest binary unit whose decimal threshold it passes, to one decimal.
pub open spec fn size_text(i: int) -> Seq<char> {
    if i == 0 {
        Seq::empty()
    } else if i < 0 {
        "-"@ + one_decimal(tenths((-i) as nat, KIB as nat)) + "K"@
    } else if i > 1_000_000_000_000 {
        one_decimal(tenths(i as nat, TIB as nat)) + "T"@
    } else if i > 1_000_000_000 {
        one_decimal(tenths(i as nat, GIB as nat)) + "G"@
    } else if i > 1_000_000 {
        one_decimal(tenths(i as nat, MIB as nat)) + "M"@
    } else {
        one_decimal(tenths(i as nat, KIB as nat)) + "K"@
    }
}

/// A size in bytes; a negative one shows in kibibytes with its sign.
pub fn format_size(i: i64) -> (r: String)
    ensures
        r@ == size_text(i as int),
{
    let mut out = String::new();
    if i == 0 {
        return out;
    }
    if i < 0 {
        let m = (-(i as i128)) as u64;
        out.append("-");
        push_one_decimal(&mut out, tenths_exec(m, KIB));
        out.append("K");
        proof {
            reveal_strlit("-");
        }
        return out;
    }
    let n = i as u64;
    if i > 1_000_000_000_000 {
        push_one_decimal(&mut out, tenths_exec(n, TIB));
        out.append("T");
    } else if i > 1_000_000_000 {
        push_one_decimal(&mut out, tenths_exec(n, GIB));
        out.append("G");
    } else if i > 1_000_000 {
        push_one_decimal(&mut out, tenths_exec(n, MIB));
        out.append("M");
    } else {
        push_one_decimal(&mut out, tenths_exec(n, KIB));
        out.append("K");
    }
    out
}

/// `s` padded on the left with spaces to at least `width` characters.
pub open spec fn pad_left(s: Seq<char>, width: nat) -> Seq<char> {
    if s.len() >= width {
        s
    } else {
        Seq::new((width - s.len()) as nat, |_i: int| ' ') + s
    }
}

/// A transfer rate in bytes per second, right-aligned to five characters;
/// nothing for zero when `hide_zero` is set.
pub open spec fn speed_text(i: int, hide_zero: bool) -> Seq<char> {
    if hide_zero && i == 0 {
        Seq::empty()
    } else if i < 0 {
        pad_left("-"@ + one_decimal(tenths((-i) as nat, KIB as nat)), 5) + " K/s"@
    } else if i > 1_000_000 {
        pad_left(one_decimal(tenths(i as nat, MIB as nat)), 5) + " M/s"@
    } else {
        pad_left(one_decimal(tenths(i as nat, KIB as nat)), 5) + " K/s"@
    }
}

/// A transfer rate; a negative one shows in kibibytes with its sign.
pub fn format_download_speed(i: i64, hide_zero: bool) -> (r: String)
    ensures
        r@ == speed_text(i as int, hide_zero),
{
    if hide_zero && i == 0 {
        return String::new();
    }
    let mut num = String::new();
    let big = i > 1_000_000;
    if i < 0 {
        let m = (-(i as i128)) as u64;
        num.append("-");
        push_one_decimal(&mut num, tenths_exec(m, KIB));
        proof {
            reveal_strlit("-");
        }
    } else if big {
        push_one_decimal(&mut num, tenths_exec(i as u64, MIB));
    } else {
        push_one_decimal(&mut num, tenths_exec(i as u64, KIB));
    }
    let mut out = String::new();
    let len = num.unicode_len();
    let mut k: usize = len;
    while k < 5
        invariant
            len <= k <= 5 || (len > 5 && k == len),
            len == num@.len(),
            out@ == Seq::new((k - len) as nat, |_i: int| ' '),
        decreases 5 - k,
    {
        push_char(&mut out, ' ');
        k = k + 1;
        assert(out@ =~= Seq::new((k - len) as nat, |_i: int| ' '));
    }
    let mut out = out.concat(num.as_str());
    if big {
        out.append(" M/s");
    } else {
        out.append(" K/s");
    }
    proof {
        if len >= 5 {
            assert(out@.len() >= 0);
        }
    }
    out
}

/// The host part of a tracker address: everything before the first `/`.
pub open spec fn domain_of(s: Seq<char>) -> Seq<char> {
    let i = first_index_of(s, '/', 0);
    s.subrange(0, i)
}

/// The first position at or after `from` that holds `c`, or the length.
pub open spec fn first_index_of(s: Seq<char>, c: char, from: int) -> int
    decreases s.len() - from,
{
    if from >= s.len() || from < 0 {
        s.len() as int
    } else if s[from] == c {
        from
    } else {
        first_index_of(s, c, from + 1)
    }
}

/// The text up to the first `/`.
pub fn extract_domain_name(s: &str) -> (r: String)
    ensures
        r@ == domain_of(s@),
{
    let cs = chars_of(s);
    let mut i: usize = 0;
    while i < cs.len() && cs[i] != '/'
        invariant
            i <= cs@.len(),
            first_index_of(cs@, '/', i as int) == first_index_of(cs@, '/', 0),
        decreases cs@.len() - i,
    {
        i = i + 1;
    }
    let head = slice_chars(&cs, 0, i);
    string_of(&head)
}

pub open spec fn has_prefix(s: Seq<char>, p: Seq<char>) -> bool {
    p.len() <= s.len() && s.subrange(0, p.len() as int) == p
}

/// The host of a tracker address given with an http, https or udp scheme;
/// nothing for any other address.
pub open spec fn tracker_host(s: Seq<char>) -> Seq<char> {
    if has_prefix(s, "https://"@) {
        domain_of(s.subrange(8, s.len() as int))
    } else if has_prefix(s, "http://"@) {
        domain_of(s.subrange(7, s.len() as int))
    } else if has_prefix(s, "udp://"@) {
        domain_of(s.subrange(6, s.len() as int))
    } else {
        Seq::empty()
    }
}

fn strip_prefix_chars(s: &Vec<char>, p: &str) -> (r: Option<Vec<char>>)
    ensures
        r is Some <==> has_prefix(s@, p@),
        r matches Some(rest) ==> rest@ == s@.subrange(p@.len() as int, s@.len() as int),
{
    let pc = chars_of(p);
    if pc.len() > s.len() {
        return None;
    }
    let head = slice_chars(s, 0, pc.len());
    let mut i: usize = 0;
    while i < pc.len()
        invariant
            i <= pc@.len() == head@.len(),
            pc@ == p@,
            head@ == s@.subrange(0, pc@.len() as int),
            forall|m: int| 0 <= m < i ==> head@[m] == pc@[m],
        decreases pc@.len() - i,
    {
        if head[i] != pc[i] {
            assert(head@[i as int] != pc@[i as int]);
            return None;
        }
        i = i + 1;
    }
    assert(head@ =~= pc@);
    Some(slice_chars(s, pc.len(), s.len()))
}

/// The host of a tracker address.
pub fn format_tracker_url(s: &str) -> (r: String)
    ensures
        r@ == tracker_host(s@),
{
    proof {
        reveal_strlit("https://");
        reveal_strlit("http://");
        reveal_strlit("udp://");
    }
    let cs = chars_of(s);
    let rest = match strip_prefix_chars(&cs, "https://") {
        Some(r) => Some(r),
        None => match strip_prefix_chars(&cs, "http://") {
            Some(r) => Some(r),
            None => strip_prefix_chars(&cs, "udp://"),
        },
    };
    match rest {
        Some(r) => {
            let t = string_of(&r);
            extract_domain_name(t.as_str())
        },
        None => String::new(),
    }
}

} // verus!
