//! The supervision task: one line on the state of the system per second.

use crate::text;
use vstd::prelude::*;

verus! {

/// Period of the lines.
pub const MONITOR_PERIOD_MS: u32 = 1000;

/// What a line reports.
#[derive(Clone, Copy, Debug, PartialEq, Eq, Structural)]
pub struct SystemState {
    pub imu_ok: bool,
    pub gps_ok: bool,
    pub baro_ok: bool,
    pub armed: bool,
    pub critical: bool,
    pub uptime: u32,
}

/// A truth value in words.
pub open spec fn word(b: bool) -> Seq<u8> {
    if b {
        text::utf8("true"@)
    } else {
        text::utf8("false"@)
    }
}

fn push_word(out: &mut Vec<u8>, b: bool)
    ensures
        final(out)@ == old(out)@ + word(b),
{
    if b {
        text::push_str(out, "true");
    } else {
        text::push_str(out, "false");
    }
}

/// The line.
pub open spec fn line_of(s: SystemState) -> Seq<u8> {
    text::utf8("sys imu="@) + word(s.imu_ok) + text::utf8(" gps="@) + word(s.gps_ok) + text::utf8(
        " baro="@,
    ) + word(s.baro_ok) + text::utf8(" armed="@) + word(s.armed) + text::utf8(" crit="@) + word(
        s.critical,
    ) + text::utf8(" uptime="@) + text::decimal(s.uptime as nat) + text::utf8("ms"@)
}

/// Builds the line.
pub fn monitor_line(s: &SystemState) -> (out: Vec<u8>)
    ensures
        out@ == line_of(*s),
{
    let mut out: Vec<u8> = Vec::new();
    text::push_str(&mut out, "sys imu=");
    assert(out@ =~= text::utf8("sys imu="@));
    push_word(&mut out, s.imu_ok);
    text::push_str(&mut out, " gps=");
    push_word(&mut out, s.gps_ok);
    text::push_str(&mut out, " baro=");
    push_word(&mut out, s.baro_ok);
    text::push_str(&mut out, " armed=");
    push_word(&mut out, s.armed);
    text::push_str(&mut out, " crit=");
    push_word(&mut out, s.critical);
    text::push_str(&mut out, " uptime=");
    text::wr_num(&mut out, s.uptime);
    text::push_str(&mut out, "ms");
    out
}

/// The line shows each part of the state under its own label: the word behind a
/// label is `true` exactly where that part is.
pub proof fn law_line_shows_each_part(s: SystemState)
    ensures
        text::shows(line_of(s), "sys imu="@, text::utf8(if s.imu_ok { "true"@ } else { "false"@ })),
        text::shows(line_of(s), " gps="@, text::utf8(if s.gps_ok { "true"@ } else { "false"@ })),
        text::shows(line_of(s), " baro="@, text::utf8(if s.baro_ok { "true"@ } else { "false"@ })),
        text::shows(line_of(s), " armed="@, text::utf8(if s.armed { "true"@ } else { "false"@ })),
        text::shows(line_of(s), " crit="@, text::utf8(if s.critical { "true"@ } else { "false"@ })),
        text::shows(
            line_of(s),
            " uptime="@,
            text::decimal(s.uptime as nat) + text::utf8("ms"@),
        ),
{
    let none = Seq::<u8>::empty();
    let up = text::decimal(s.uptime as nat) + text::utf8("ms"@);
    let p0 = text::utf8("sys imu="@) + word(s.imu_ok);
    let p1 = p0 + text::utf8(" gps="@) + word(s.gps_ok);
    let p2 = p1 + text::utf8(" baro="@) + word(s.baro_ok);
    let p3 = p2 + text::utf8(" armed="@) + word(s.armed);
    let p4 = p3 + text::utf8(" crit="@) + word(s.critical);
    let p5 = p4 + text::utf8(" uptime="@) + up;
    assert(p5 =~= line_of(s));
    assert(p0 =~= none + text::utf8("sys imu="@) + word(s.imu_ok));
    text::lemma_shows_on(none, "sys imu="@, word(s.imu_ok));
    text::lemma_shows_grows(
        p0,
        text::utf8(" gps="@),
        word(s.gps_ok),
        "sys imu="@,
        word(s.imu_ok),
    );
    text::lemma_shows_grows(
        p1,
        text::utf8(" baro="@),
        word(s.baro_ok),
        "sys imu="@,
        word(s.imu_ok),
    );
    text::lemma_shows_grows(
        p2,
        text::utf8(" armed="@),
        word(s.armed),
        "sys imu="@,
        word(s.imu_ok),
    );
    text::lemma_shows_grows(
        p3,
        text::utf8(" crit="@),
        word(s.critical),
        "sys imu="@,
        word(s.imu_ok),
    );
    text::lemma_shows_grows(
        p4,
        text::utf8(" uptime="@),
        up,
        "sys imu="@,
        word(s.imu_ok),
    );
    text::lemma_shows_on(p0, " gps="@, word(s.gps_ok));
    text::lemma_shows_grows(
        p1,
        text::utf8(" baro="@),
        word(s.baro_ok),
        " gps="@,
        word(s.gps_ok),
    );
    text::lemma_shows_grows(
        p2,
        text::utf8(" armed="@),
        word(s.armed),
        " gps="@,
        word(s.gps_ok),
    );
    text::lemma_shows_grows(
        p3,
        text::utf8(" crit="@),
        word(s.critical),
        " gps="@,
        word(s.gps_ok),
    );
    text::lemma_shows_grows(
        p4,
        text::utf8(" uptime="@),
        up,
        " gps="@,
        word(s.gps_ok),
    );
    text::lemma_shows_on(p1, " baro="@, word(s.baro_ok));
    text::lemma_shows_grows(
        p2,
        text::utf8(" armed="@),
        word(s.armed),
        " baro="@,
        word(s.baro_ok),
    );
    text::lemma_shows_grows(
        p3,
        text::utf8(" crit="@),
        word(s.critical),
        " baro="@,
        word(s.baro_ok),
    );
    text::lemma_shows_grows(
        p4,
        text::utf8(" uptime="@),
        up,
        " baro="@,
        word(s.baro_ok),
    );
    text::lemma_shows_on(p2, " armed="@, word(s.armed));
    text::lemma_shows_grows(
        p3,
        text::utf8(" crit="@),
        word(s.critical),
        " armed="@,
        word(s.armed),
    );
    text::lemma_shows_grows(
        p4,
        text::utf8(" uptime="@),
        up,
        " armed="@,
        word(s.armed),
    );
    text::lemma_shows_on(p3, " crit="@, word(s.critical));
    text::lemma_shows_grows(
        p4,
        text::utf8(" uptime="@),
        up,
        " crit="@,
        word(s.critical),
    );
    text::lemma_shows_on(p4, " uptime="@, up);
}

} // verus!
