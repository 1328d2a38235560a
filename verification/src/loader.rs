//! What the `dinput8.dll` proxy computes when it is attached to the game: the
//! path of the system's real `dinput8.dll`, and the startup line that names
//! the Windows version (and the Wine version, when running under Wine).
use vstd::prelude::*;

verus! {

/// The `fdwReason` value with which Windows calls `DllMain` when the DLL is
/// attached to a process (`DLL_PROCESS_ATTACH`).
pub const DLL_PROCESS_ATTACH: u32 = 1;

/// Whether a `DllMain` call with `reason` is the process attach, on which the
/// DLLs do their one-time setup.
pub fn is_process_attach(reason: u32) -> (attach: bool)
    ensures
        attach == (reason == DLL_PROCESS_ATTACH),
{
    reason == DLL_PROCESS_ATTACH
}

/// The file name of the proxied DLL, with the separator that joins it to the
/// system directory: `\dinput8.dll`.
pub open spec fn proxy_dll_name() -> Seq<char> {
    seq!['\\', 'd', 'i', 'n', 'p', 'u', 't', '8', '.', 'd', 'l', 'l']
}

/// The path of the real `dinput8.dll` inside `system_dir`.
pub fn proxy_target_path(system_dir: &str) -> (path: String)
    ensures
        path@ == system_dir@ + proxy_dll_name(),
{
    let mut path = String::new();
    path.append(system_dir);
    proof {
        reveal_strlit("\\dinput8.dll");
    }
    path.append("\\dinput8.dll");
    assert(path@ =~= system_dir@ + proxy_dll_name());
    path
}

/// The character of decimal digit `d`.
pub open spec fn digit_char(d: nat) -> char {
    ('0' as nat + d) as char
}

/// The decimal notation of `n`, without leading zeros.
pub open spec fn decimal(n: nat) -> Seq<char>
    decreases n,
{
    if n < 10 {
        seq![digit_char(n)]
    } else {
        decimal(n / 10).push(digit_char(n % 10))
    }
}

/// Whether `c` is one of the ASCII decimal digits `0`..`9`.
pub open spec fn is_ascii_digit(c: char) -> bool {
    48 <= c as int <= 57
}

/// The number that a string of decimal digits denotes, most significant
/// digit first.
pub open spec fn digits_value(s: Seq<char>) -> int
    decreases s.len(),
{
    if s.len() == 0 {
        0
    } else {
        digits_value(s.drop_last()) * 10 + (s.last() as int - 48)
    }
}

/// `decimal(n)` is the standard base-10 notation of `n`: a non-empty string
/// of ASCII digits that reads back as `n`, whose first digit is `0` only when
/// `n` is zero (no leading zeros).
pub proof fn lemma_decimal_reads_back(n: nat)
    ensures
        decimal(n).len() >= 1,
        forall|i: int| 0 <= i < decimal(n).len() ==> #[trigger] is_ascii_digit(decimal(n)[i]),
        digits_value(decimal(n)) == n,
        decimal(n)[0] == '0' <==> n == 0,
    decreases n,
{
    if n < 10 {
        assert(decimal(n) =~= seq![digit_char(n)]);
        assert(decimal(n).drop_last() =~= Seq::<char>::empty());
        assert(digit_char(n) as int == 48 + n);
        assert(digits_value(decimal(n).drop_last()) == 0);
        assert(decimal(n).last() == digit_char(n));
    } else {
        lemma_decimal_reads_back(n / 10);
        let d = decimal(n / 10);
        assert(decimal(n) == d.push(digit_char(n % 10)));
        assert(decimal(n).drop_last() =~= d);
        assert(digit_char(n % 10) as int == 48 + n % 10);
        assert(decimal(n).last() == digit_char(n % 10));
        assert(digits_value(decimal(n)) == digits_value(d) * 10 + (n % 10));
        assert((n / 10) * 10 + n % 10 == n) by (nonlinear_arith);
        assert forall|i: int| 0 <= i < decimal(n).len() implies #[trigger] is_ascii_digit(
            decimal(n)[i],
        ) by {
            if i < d.len() {
                assert(decimal(n)[i] == d[i]);
            }
        }
        assert(decimal(n)[0] == d[0]);
    }
}

/// The startup line: the Windows version as major.minor.build, followed by the
/// Wine version when there is one, or by a full stop when there is none.
pub open spec fn os_banner_text(major: nat, minor: nat, build: nat, wine: Option<Seq<char>>) -> Seq<
    char,
> {
    let windows = "Starting on Windows v"@ + decimal(major) + seq!['.'] + decimal(minor) + seq!['.']
        + decimal(build);
    match wine {
        Some(w) => windows + " in Wine v"@ + w,
        None => windows + seq!['.'],
    }
}

/// The startup line is, character by character: `Starting on Windows v`,
/// the decimal notation of `major`, `.`, that of `minor`, `.`, that of
/// `build`, and then either ` in Wine v` followed by the Wine version, or a
/// final `.` and nothing more. Every version number appears in full.
pub proof fn lemma_os_banner_layout(major: nat, minor: nat, build: nat, wine: Option<Seq<char>>)
    ensures
        ({
            let t = os_banner_text(major, minor, build, wine);
            let p = "Starting on Windows v"@;
            let a = p.len() as int;
            let b = a + decimal(major).len();
            let c = b + 1 + decimal(minor).len();
            let d = c + 1 + decimal(build).len();
            &&& t.subrange(0, a) == p
            &&& t.subrange(a, b) == decimal(major)
            &&& t[b] == '.'
            &&& t.subrange(b + 1, c) == decimal(minor)
            &&& t[c] == '.'
            &&& t.subrange(c + 1, d) == decimal(build)
            &&& match wine {
                Some(w) => {
                    &&& t.len() == d + " in Wine v"@.len() + w.len()
                    &&& t.subrange(d, d + " in Wine v"@.len()) == " in Wine v"@
                    &&& t.subrange(d + " in Wine v"@.len(), t.len() as int) == w
                },
                None => t.len() == d + 1 && t[d] == '.',
            }
        }),
{
    let t = os_banner_text(major, minor, build, wine);
    let p = "Starting on Windows v"@;
    let a = p.len() as int;
    let b = a + decimal(major).len();
    let c = b + 1 + decimal(minor).len();
    let d = c + 1 + decimal(build).len();
    let win = p + decimal(major) + seq!['.'] + decimal(minor) + seq!['.'] + decimal(build);
    assert(win.len() == d);
    assert(t.subrange(0, d) =~= win);
    assert(win.subrange(0, a) =~= p);
    assert(win.subrange(a, b) =~= decimal(major));
    assert(win.subrange(b + 1, c) =~= decimal(minor));
    assert(win.subrange(c + 1, d) =~= decimal(build));
    assert(t.subrange(0, a) =~= win.subrange(0, a));
    assert(t.subrange(a, b) =~= win.subrange(a, b));
    assert(t.subrange(b + 1, c) =~= win.subrange(b + 1, c));
    assert(t.subrange(c + 1, d) =~= win.subrange(c + 1, d));
    assert(t[b] == win[b]);
    assert(t[c] == win[c]);
    match wine {
        Some(w) => {
            let m = " in Wine v"@;
            assert(t == win + m + w);
            assert(t.subrange(d, d + m.len()) =~= m);
            assert(t.subrange(d + m.len(), t.len() as int) =~= w);
        },
        None => {
            assert(t == win + seq!['.']);
        },
    }
}

fn digit_str(d: u32) -> (s: &'static str)
    requires
        d < 10,
    ensures
        s@ == seq![digit_char(d as nat)],
{
    proof {
        reveal_strlit("0");
        reveal_strlit("1");
        reveal_strlit("2");
        reveal_strlit("3");
        reveal_strlit("4");
        reveal_strlit("5");
        reveal_strlit("6");
        reveal_strlit("7");
        reveal_strlit("8");
        reveal_strlit("9");
    }
    let s = if d == 0 {
        "0"
    } else if d == 1 {
        "1"
    } else if d == 2 {
        "2"
    } else if d == 3 {
        "3"
    } else if d == 4 {
        "4"
    } else if d == 5 {
        "5"
    } else if d == 6 {
        "6"
    } else if d == 7 {
        "7"
    } else if d == 8 {
        "8"
    } else {
        "9"
    };
    assert(s@ =~= seq![digit_char(d as nat)]);
    s
}

/// Appends the decimal notation of `n` to `out`.
pub fn push_decimal(out: &mut String, n: u32)
    ensures
        final(out)@ == old(out)@ + decimal(n as nat),
    decreases n,
{
    if n >= 10 {
        push_decimal(out, n / 10);
    }
    out.append(digit_str(n % 10));
    assert(out@ =~= old(out)@ + decimal(n as nat));
}

/// Builds the startup line for Windows `major.minor.build`, running under the
/// Wine version `wine` if there is one.
pub fn os_banner(major: u32, minor: u32, build: u32, wine: Option<&str>) -> (line: String)
    ensures
        line@ == os_banner_text(
            major as nat,
            minor as nat,
            build as nat,
            match wine {
                Some(w) => Some(w@),
                None => None,
            },
        ),
{
    let mut line = String::new();
    line.append("Starting on Windows v");
    push_decimal(&mut line, major);
    proof {
        reveal_strlit(".");
    }
    line.append(".");
    push_decimal(&mut line, minor);
    line.append(".");
    push_decimal(&mut line, build);
    match wine {
        Some(w) => {
            line.append(" in Wine v");
            line.append(w);
        },
        None => {
            line.append(".");
        },
    }
    assert(line@ =~= os_banner_text(
        major as nat,
        minor as nat,
        build as nat,
        match wine {
            Some(w) => Some(w@),
            None => None,
        },
    ));
    line
}

} // verus!
