use vstd::prelude::*;
use vstd::string::{StrSliceExecFns, StringExecFns};

verus! {

// ---------------------------------------------------------------------------
// Decimal numbers
// ---------------------------------------------------------------------------

/// The decimal digit character of `d` (for `d` below 10).
pub open spec fn digit_char(d: nat) -> char {
    if d == 0 {
        '0'
    } else if d == 1 {
        '1'
    } else if d == 2 {
        '2'
    } else if d == 3 {
        '3'
    } else if d == 4 {
        '4'
    } else if d == 5 {
        '5'
    } else if d == 6 {
        '6'
    } else if d == 7 {
        '7'
    } else if d == 8 {
        '8'
    } else {
        '9'
    }
}

/// The decimal text of `n`, without leading zeros ("0" for zero).
pub open spec fn decimal_of(n: nat) -> Seq<char>
    decreases n,
{
    if n < 10 {
        seq![digit_char(n)]
    } else {
        decimal_of(n / 10).push(digit_char(n % 10))
    }
}

/// The decimal text of a signed `n`: a '-' before that of its magnitude
/// when it is negative.
pub open spec fn signed_decimal_of(n: int) -> Seq<char> {
    if n < 0 {
        seq!['-'] + decimal_of((-n) as nat)
    } else {
        decimal_of(n as nat)
    }
}

/// The decimal text of `n`, padded on the left with '0' to `width`
/// characters (a longer text is kept whole).
pub open spec fn zero_padded_of(n: nat, width: nat) -> Seq<char> {
    let d = decimal_of(n);
    if d.len() < width {
        Seq::new((width - d.len()) as nat, |i: int| '0') + d
    } else {
        d
    }
}

/// The text of one decimal digit.
fn digit_str(d: u64) -> (r: &'static str)
    requires
        d < 10,
    ensures
        r@ == seq![digit_char(d as nat)],
{
    proof {
        reveal_strlit("0");
        reveal_strlit("1");
        reveal_strlit("2");
        reveal_strlit("3");
        reveal_strlit("4");
        reveal_strlit("5");
        reveal_strlit("6");
        reveal_strlit("7");
        reveal_strlit("8");
        reveal_strlit("9");
    }
    match d {
        0 => "0",
        1 => "1",
        2 => "2",
        3 => "3",
        4 => "4",
        5 => "5",
        6 => "6",
        7 => "7",
        8 => "8",
        _ => "9",
    }
}

/// Appends the decimal text of `n` to `out`.
fn append_decimal(out: &mut String, n: u64)
    ensures
        final(out)@ == old(out)@ + decimal_of(n as nat),
    decreases n,
{
    if n >= 10 {
        append_decimal(out, n / 10);
    }
    out.append(digit_str(n % 10));
    proof {
        assert(decimal_of(n as nat) == if n < 10 {
            seq![digit_char(n as nat)]
        } else {
            decimal_of((n / 10) as nat).push(digit_char((n % 10) as nat))
        });
        if n < 10 {
            assert(n % 10 == n);
        }
    }
}

/// The decimal text of `n`.
pub fn decimal_text(n: u64) -> (r: String)
    ensures
        r@ == decimal_of(n as nat),
{
    let mut out = String::new();
    append_decimal(&mut out, n);
    assert(out@ =~= decimal_of(n as nat));
    out
}

/// Appends the decimal text of a signed `n` to `out`.
fn append_signed_decimal(out: &mut String, n: i64)
    ensures
        final(out)@ == old(out)@ + signed_decimal_of(n as int),
{
    proof {
        reveal_strlit("-");
    }
    if n < 0 {
        out.append("-");
        let magnitude: u64 = if n == i64::MIN {
            0x8000_0000_0000_0000u64
        } else {
            (-n) as u64
        };
        let ghost before = out@;
        append_decimal(out, magnitude);
        assert(out@ =~= old(out)@ + signed_decimal_of(n as int));
    } else {
        append_decimal(out, n as u64);
    }
}

/// The decimal text of `n`, padded on the left with '0' to `width`
/// characters, as `format!("{:0width$}", n)` writes it.
pub fn zero_padded_text(n: u64, width: usize) -> (r: String)
    ensures
        r@ == zero_padded_of(n as nat, width as nat),
{
    let digits = decimal_text(n);
    let len = digits.as_str().unicode_len();
    if len < width {
        let mut out = String::new();
        let mut i: usize = 0;
        proof {
            reveal_strlit("0");
        }
        while i < width - len
            invariant
                i <= width - len,
                len < width,
                "0"@ == seq!['0'],
                out@ == Seq::new(i as nat, |k: int| '0'),
            decreases width - len - i,
        {
            out.append("0");
            assert(out@ =~= Seq::new((i + 1) as nat, |k: int| '0'));
            i += 1;
        }
        out.append(digits.as_str());
        out
    } else {
        digits
    }
}

// ---------------------------------------------------------------------------
// Texts the probe builds
// ---------------------------------------------------------------------------

/// The capture filter for traffic sent to `ip`:`port` over `protocol`:
/// "<protocol> dst port <port> and ip dst host <ip>".
pub open spec fn capture_filter_of(protocol: Seq<char>, port: i32, ip: Seq<char>) -> Seq<char> {
    protocol + " dst port "@ + signed_decimal_of(port as int) + " and ip dst host "@ + ip
}

/// The capture filter for traffic sent to `ip`:`port` over `protocol`.
pub fn capture_filter(protocol: &str, port: i32, ip: &str) -> (r: String)
    ensures
        r@ == capture_filter_of(protocol@, port, ip@),
{
    let mut out = String::from_str(protocol);
    out.append(" dst port ");
    append_signed_decimal(&mut out, port as i64);
    out.append(" and ip dst host ");
    out.append(ip);
    assert(out@ =~= capture_filter_of(protocol@, port, ip@));
    out
}

/// The probe id used when none is configured: "<host>:<ip>:<port>".
pub open spec fn default_probe_id_of(host: Seq<char>, ip: Seq<char>, port: i32) -> Seq<char> {
    host + ":"@ + ip + ":"@ + signed_decimal_of(port as int)
}

/// The probe id used when none is configured: "<host>:<ip>:<port>".
pub fn default_probe_id(host: &str, ip: &str, port: i32) -> (r: String)
    ensures
        r@ == default_probe_id_of(host@, ip@, port),
{
    let mut out = String::from_str(host);
    out.append(":");
    out.append(ip);
    out.append(":");
    append_signed_decimal(&mut out, port as i64);
    assert(out@ =~= default_probe_id_of(host@, ip@, port));
    out
}

/// The characters ".jpg".
pub open spec fn jpg_suffix() -> Seq<char> {
    seq!['.', 'j', 'p', 'g']
}

/// `s` with every ".jpg" taken out, scanning from the left
/// (`str::replace(".jpg", "")`).
pub open spec fn without_jpg(s: Seq<char>) -> Seq<char>
    decreases s.len(),
{
    if s.len() == 0 {
        s
    } else if s.len() >= 4 && s.take(4) == jpg_suffix() {
        without_jpg(s.skip(4))
    } else {
        seq![s[0]] + without_jpg(s.skip(1))
    }
}

/// Whether ".jpg" starts at position `i` of `s`.
fn jpg_at(s: &str, n: usize, i: usize) -> (r: bool)
    requires
        n == s@.len(),
        i <= n,
    ensures
        r == (i + 4 <= n && s@.subrange(i as int, i + 4) == jpg_suffix()),
{
    if n - i < 4 {
        return false;
    }
    let a = s.get_char(i);
    let b = s.get_char(i + 1);
    let c = s.get_char(i + 2);
    let d = s.get_char(i + 3);
    let r = a == '.' && b == 'j' && c == 'p' && d == 'g';
    if r {
        assert(s@.subrange(i as int, i + 4) =~= jpg_suffix());
    } else {
        assert(s@.subrange(i as int, i + 4)[0] == a);
        assert(s@.subrange(i as int, i + 4)[1] == b);
        assert(s@.subrange(i as int, i + 4)[2] == c);
        assert(s@.subrange(i as int, i + 4)[3] == d);
    }
    r
}

/// The name of the file the `counter`-th image is saved to:
/// `output_file` without ".jpg", then "_", the counter on 8 digits, and
/// ".jpg".
pub open spec fn image_file_name_of(output_file: Seq<char>, counter: u32) -> Seq<char> {
    without_jpg(output_file) + seq!['_'] + zero_padded_of(counter as nat, 8) + jpg_suffix()
}

/// The name of the file the `counter`-th image is saved to.
pub fn image_file_name(output_file: &str, counter: u32) -> (r: String)
    ensures
        r@ == image_file_name_of(output_file@, counter),
{
    let n = output_file.unicode_len();
    let mut out = String::new();
    let mut i: usize = 0;
    assert(output_file@.skip(0) =~= output_file@);
    assert(out@ + output_file@ =~= output_file@);
    while i < n
        invariant
            i <= n,
            n == output_file@.len(),
            out@ + without_jpg(output_file@.skip(i as int)) == without_jpg(output_file@),
        decreases n - i,
    {
        let ghost rest = output_file@.skip(i as int);
        if jpg_at(output_file, n, i) {
            assert(rest.take(4) =~= output_file@.subrange(i as int, i + 4));
            assert(rest.skip(4) =~= output_file@.skip(i + 4));
            i += 4;
        } else {
            assert(rest.len() >= 4 ==> rest.take(4) =~= output_file@.subrange(i as int, i + 4));
            let piece = output_file.substring_char(i, i + 1);
            let ghost before = out@;
            out.append(piece);
            assert(piece@ =~= seq![rest[0]]);
            assert(rest.skip(1) =~= output_file@.skip(i + 1));
            assert(out@ + without_jpg(output_file@.skip(i + 1)) =~= before + (seq![rest[0]]
                + without_jpg(rest.skip(1))));
            i += 1;
        }
    }
    assert(output_file@.skip(n as int) =~= Seq::<char>::empty());
    assert(out@ + Seq::<char>::empty() =~= out@);
    proof {
        reveal_strlit("_");
        reveal_strlit(".jpg");
    }
    out.append("_");
    let padded = zero_padded_text(counter as u64, 8);
    out.append(padded.as_str());
    out.append(".jpg");
    assert(out@ =~= image_file_name_of(output_file@, counter));
    out
}

} // verus!
