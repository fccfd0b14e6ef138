//! The Prometheus text that a scrape of `/metrics` answers.
use vstd::prelude::*;

use crate::time::Timestamp;

verus! {

/// The decimal digit `d` (0 to 9).
pub open spec fn digit(d: nat) -> Seq<char> {
    if d == 0 {
        "0"@
    } else if d == 1 {
        "1"@
    } else if d == 2 {
        "2"@
    } else if d == 3 {
        "3"@
    } else if d == 4 {
        "4"@
    } else if d == 5 {
        "5"@
    } else if d == 6 {
        "6"@
    } else if d == 7 {
        "7"@
    } else if d == 8 {
        "8"@
    } else {
        "9"@
    }
}

/// The decimal digits of `n`, without leading zeros.
pub open spec fn decimal_nat(n: nat) -> Seq<char>
    decreases n,
{
    if n < 10 {
        digit(n)
    } else {
        decimal_nat(n / 10) + digit(n % 10)
    }
}

/// `n` in decimal, with a leading `-` when it is negative.
pub open spec fn decimal(n: int) -> Seq<char> {
    if n >= 0 {
        decimal_nat(n as nat)
    } else {
        "-"@ + decimal_nat((-n) as nat)
    }
}

/// The number that a string of decimal digits stands for.
pub open spec fn read_decimal(s: Seq<char>) -> int
    decreases s.len(),
{
    if s.len() == 0 {
        0
    } else {
        read_decimal(s.drop_last()) * 10 + (s.last() as int - '0' as int)
    }
}

/// Each digit is the single character for its value.
proof fn lemma_digit(d: nat)
    requires
        d < 10,
    ensures
        digit(d).len() == 1,
        digit(d)[0] as int - '0' as int == d,
{
    reveal_strlit("0");
    reveal_strlit("1");
    reveal_strlit("2");
    reveal_strlit("3");
    reveal_strlit("4");
    reveal_strlit("5");
    reveal_strlit("6");
    reveal_strlit("7");
    reveal_strlit("8");
    reveal_strlit("9");
}

/// Written in decimal and read back, a number is unchanged; the digits are
/// never empty, are all among `0` to `9`, and start with a zero only for zero
/// itself.
pub proof fn lemma_decimal_reads_back(n: nat)
    ensures
        decimal_nat(n).len() >= 1,
        forall|i: int|
            0 <= i < decimal_nat(n).len() ==> '0' <= #[trigger] decimal_nat(n)[i] <= '9',
        read_decimal(decimal_nat(n)) == n,
        decimal_nat(n)[0] == '0' ==> n == 0,
    decreases n,
{
    lemma_digit(n % 10);
    if n < 10 {
        assert(decimal_nat(n) == digit(n));
        assert(decimal_nat(n).drop_last().len() == 0);
        assert(read_decimal(decimal_nat(n).drop_last()) == 0);
    } else {
        lemma_decimal_reads_back(n / 10);
        let s = decimal_nat(n);
        assert(s.drop_last() =~= decimal_nat(n / 10));
        assert(s.last() == digit(n % 10)[0]);
        assert(s[0] == decimal_nat(n / 10)[0]);
        assert(read_decimal(s) == read_decimal(decimal_nat(n / 10)) * 10 + (n % 10));
        assert forall|i: int| 0 <= i < s.len() implies '0' <= #[trigger] s[i] <= '9' by {
            if i < s.len() - 1 {
                assert(s[i] == decimal_nat(n / 10)[i]);
            }
        }
    }
}

/// The four lines of a gauge with one sample at the monitored point and one
/// over the area around it.
pub open spec fn gauge_text(
    name: Seq<char>,
    help: Seq<char>,
    center: Seq<char>,
    area: Seq<char>,
) -> Seq<char> {
    "# HELP "@ + name + " "@ + help + "\n"@ + "# TYPE "@ + name + " gauge\n"@ + name
        + "{scope=\"center\"} "@ + center + "\n"@ + name + "{scope=\"area\"} "@ + area + "\n"@
}

/// A gauge is its HELP and TYPE lines, then the center line, then the area
/// line, and nothing else, whatever the two readings are.
pub proof fn lemma_gauge_layout(name: Seq<char>, help: Seq<char>, center: Seq<char>, area: Seq<char>)
    ensures
        ({
            let t = gauge_text(name, help, center, area);
            let head = "# HELP "@ + name + " "@ + help + "\n"@ + "# TYPE "@ + name + " gauge\n"@;
            let center_line = name + "{scope=\"center\"} "@ + center + "\n"@;
            let area_line = name + "{scope=\"area\"} "@ + area + "\n"@;
            &&& t.len() == head.len() + center_line.len() + area_line.len()
            &&& t.subrange(0, head.len() as int) == head
            &&& t.subrange(head.len() as int, (head.len() + center_line.len()) as int) == center_line
            &&& t.subrange(t.len() - area_line.len(), t.len() as int) == area_line
        }),
{
    let t = gauge_text(name, help, center, area);
    let head = "# HELP "@ + name + " "@ + help + "\n"@ + "# TYPE "@ + name + " gauge\n"@;
    let center_line = name + "{scope=\"center\"} "@ + center + "\n"@;
    let area_line = name + "{scope=\"area\"} "@ + area + "\n"@;
    assert(t =~= head + center_line + area_line);
    assert(t.subrange(0, head.len() as int) =~= head);
    assert(t.subrange(head.len() as int, (head.len() + center_line.len()) as int) =~= center_line);
    assert(t.subrange(t.len() - area_line.len(), t.len() as int) =~= area_line);
}

/// The area reading shows only in the gauge's last line: two gauges that
/// differ in it alone agree on everything before that reading.
pub proof fn lemma_gauge_area_only_in_last_line(
    name: Seq<char>,
    help: Seq<char>,
    center: Seq<char>,
    a1: Seq<char>,
    a2: Seq<char>,
)
    ensures
        ({
            let t1 = gauge_text(name, help, center, a1);
            let t2 = gauge_text(name, help, center, a2);
            &&& t1.len() - a1.len() == t2.len() - a2.len()
            &&& t1.subrange(0, t1.len() - a1.len() - 1) == t2.subrange(0, t2.len() - a2.len() - 1)
        }),
{
    reveal_strlit("\n");
    let t1 = gauge_text(name, help, center, a1);
    let t2 = gauge_text(name, help, center, a2);
    let pre = "# HELP "@ + name + " "@ + help + "\n"@ + "# TYPE "@ + name + " gauge\n"@ + (name
        + "{scope=\"center\"} "@ + center + "\n"@) + (name + "{scope=\"area\"} "@);
    assert(t1 =~= pre + a1 + "\n"@);
    assert(t2 =~= pre + a2 + "\n"@);
    assert(t1.subrange(0, t1.len() - a1.len() - 1) =~= pre);
    assert(t2.subrange(0, t2.len() - a2.len() - 1) =~= pre);
}

/// A gauge's two readings, already written as text.
pub struct GaugeReading {
    pub center: String,
    pub area: String,
}

/// The readings of the five products and the time of their sample.
pub struct FrameReadings {
    pub time: Timestamp,
    pub poh: GaugeReading,
    pub vmi: GaugeReading,
    pub vil: GaugeReading,
    pub sri: GaugeReading,
    pub etm: GaugeReading,
}

/// The lines of the sample-time gauge.
pub open spec fn timestamp_text(time: Timestamp) -> Seq<char> {
    "# HELP dpc_frame_timestamp_seconds Unix time of the DPC sample.\n# TYPE dpc_frame_timestamp_seconds gauge\ndpc_frame_timestamp_seconds "@
        + decimal(time.millis as int / 1000) + "\n"@
}

/// The whole exposition of a frame.
pub open spec fn frame_text(f: FrameReadings) -> Seq<char> {
    gauge_text(
        "dpc_hail_probability"@,
        "Probability of hail (0-1), DPC POH."@,
        f.poh.center@,
        f.poh.area@,
    ) + gauge_text(
        "dpc_reflectivity_dbz"@,
        "Column-maximum reflectivity (dBZ), DPC VMI."@,
        f.vmi.center@,
        f.vmi.area@,
    ) + gauge_text(
        "dpc_vil_kgm2"@,
        "Vertically integrated liquid (kg/m^2), DPC VIL."@,
        f.vil.center@,
        f.vil.area@,
    ) + gauge_text(
        "dpc_rain_intensity_mmh"@,
        "Surface rainfall intensity (mm/h), DPC SRI."@,
        f.sri.center@,
        f.sri.area@,
    ) + gauge_text(
        "dpc_echo_top_meters"@,
        "Echo top height (m), DPC ETM."@,
        f.etm.center@,
        f.etm.area@,
    ) + timestamp_text(f.time)
}

/// What `/metrics` answers before any frame was fetched.
pub open spec fn no_frame_text() -> Seq<char> {
    "# no DPC frame fetched yet\n"@
}

fn digit_str(d: u64) -> (r: &'static str)
    requires
        d < 10,
    ensures
        r@ == digit(d as nat),
{
    if d == 0 {
        "0"
    } else if d == 1 {
        "1"
    } else if d == 2 {
        "2"
    } else if d == 3 {
        "3"
    } else if d == 4 {
        "4"
    } else if d == 5 {
        "5"
    } else if d == 6 {
        "6"
    } else if d == 7 {
        "7"
    } else if d == 8 {
        "8"
    } else {
        "9"
    }
}

/// Appends the decimal digits of `n`.
pub fn push_decimal_u64(s: &mut String, n: u64)
    ensures
        final(s)@ == old(s)@ + decimal_nat(n as nat),
    decreases n,
{
    if n >= 10 {
        push_decimal_u64(s, n / 10);
    }
    s.append(digit_str(n % 10));
    proof {
        if n >= 10 {
            assert(old(s)@ + decimal_nat((n / 10) as nat) + digit((n % 10) as nat) =~= old(s)@
                + decimal_nat(n as nat));
        }
    }
}

/// Appends `n` in decimal.
pub fn push_decimal_i64(s: &mut String, n: i64)
    ensures
        final(s)@ == old(s)@ + decimal(n as int),
{
    if n >= 0 {
        push_decimal_u64(s, n as u64);
    } else {
        s.append("-");
        let m: u64 = (-(n as i128)) as u64;
        push_decimal_u64(s, m);
        assert(old(s)@ + "-"@ + decimal_nat(m as nat) =~= old(s)@ + decimal(n as int));
    }
}

/// Appends a gauge's HELP and TYPE lines and its two samples, labelled
/// `scope="center"` and `scope="area"`.
pub fn gauge(s: &mut String, name: &str, help: &str, center: &str, area: &str)
    ensures
        final(s)@ == old(s)@ + gauge_text(name@, help@, center@, area@),
{
    s.append("# HELP ");
    s.append(name);
    s.append(" ");
    s.append(help);
    s.append("\n");
    s.append("# TYPE ");
    s.append(name);
    s.append(" gauge\n");
    s.append(name);
    s.append("{scope=\"center\"} ");
    s.append(center);
    s.append("\n");
    s.append(name);
    s.append("{scope=\"area\"} ");
    s.append(area);
    s.append("\n");
    assert(final(s)@ =~= old(s)@ + gauge_text(name@, help@, center@, area@));
}

/// The exposition of a frame: the five product gauges, then the sample time
/// in whole Unix seconds.
pub fn render(frame: &FrameReadings) -> (s: String)
    ensures
        s@ == frame_text(*frame),
{
    let mut s = String::new();
    gauge(
        &mut s,
        "dpc_hail_probability",
        "Probability of hail (0-1), DPC POH.",
        frame.poh.center.as_str(),
        frame.poh.area.as_str(),
    );
    gauge(
        &mut s,
        "dpc_reflectivity_dbz",
        "Column-maximum reflectivity (dBZ), DPC VMI.",
        frame.vmi.center.as_str(),
        frame.vmi.area.as_str(),
    );
    gauge(
        &mut s,
        "dpc_vil_kgm2",
        "Vertically integrated liquid (kg/m^2), DPC VIL.",
        frame.vil.center.as_str(),
        frame.vil.area.as_str(),
    );
    gauge(
        &mut s,
        "dpc_rain_intensity_mmh",
        "Surface rainfall intensity (mm/h), DPC SRI.",
        frame.sri.center.as_str(),
        frame.sri.area.as_str(),
    );
    gauge(
        &mut s,
        "dpc_echo_top_meters",
        "Echo top height (m), DPC ETM.",
        frame.etm.center.as_str(),
        frame.etm.area.as_str(),
    );
    let ghost gauges = s@;
    s.append(
        "# HELP dpc_frame_timestamp_seconds Unix time of the DPC sample.\n# TYPE dpc_frame_timestamp_seconds gauge\ndpc_frame_timestamp_seconds ",
    );
    let secs = frame.time.unix_seconds();
    push_decimal_i64(&mut s, secs);
    s.append("\n");
    assert(s@ =~= gauges + timestamp_text(frame.time));
    assert(s@ =~= frame_text(*frame));
    s
}

/// The body of a `/metrics` answer: the frame's exposition, or a comment when
/// no frame has been fetched yet.
pub fn metrics_body(frame: Option<&FrameReadings>) -> (s: String)
    ensures
        s@ == match frame {
            Some(f) => frame_text(*f),
            None => no_frame_text(),
        },
{
    match frame {
        Some(f) => render(f),
        None => String::from_str("# no DPC frame fetched yet\n"),
    }
}

} // verus!
