//! How the `BRIVVA_*` settings the media runtime reads are interpreted,
//! and the retirement rule of the billing-metrics reporter.

use vstd::prelude::*;

use crate::ffmpeg_cmd::DEFAULT_SUBTITLE_FONTFILE;
use crate::text::{ascii_lower_chars, ascii_lower_seq, chars_of, owned, str_eq, string_of, trim_chars, trim_seq};

verus! {

/// Whether the debug video clock is on: the setting, trimmed and
/// ASCII-lower-cased, is `1`, `true`, `yes` or `on` (unset is off).
pub open spec fn debug_clock_on(value: Option<Seq<char>>) -> bool {
    match value {
        Some(v) => {
            let t = ascii_lower_seq(trim_seq(v));
            t == "1"@ || t == "true"@ || t == "yes"@ || t == "on"@
        },
        None => false,
    }
}

/// Reads the debug-video-clock setting.
pub fn debug_video_clock_enabled(value: Option<&str>) -> (b: bool)
    ensures
        b == debug_clock_on(match value {
            Some(v) => Some(v@),
            None => None,
        }),
{
    match value {
        Some(v) => {
            let t = string_of(&ascii_lower_chars(&trim_chars(&chars_of(v))));
            let s = t.as_str();
            str_eq(s, "1") || str_eq(s, "true") || str_eq(s, "yes") || str_eq(s, "on")
        },
        None => false,
    }
}

/// The font files tried, in order, when no font is configured.
pub open spec fn font_candidates() -> Seq<Seq<char>> {
    seq![
        "/usr/share/fonts/opentype/noto/NotoSansCJK-Regular.ttc"@,
        "/usr/share/fonts/opentype/noto/NotoSansCJK-Bold.ttc"@,
        "/usr/share/fonts/truetype/noto/NotoSansCJK-Regular.ttc"@,
        "/usr/share/fonts/truetype/dejavu/DejaVuSans.ttf"@,
    ]
}

/// The subtitle font: a configured path that is not blank; else the first
/// candidate that exists (`exists[i]` for candidate `i`); else the default
/// Noto CJK path.
pub open spec fn chosen_fontfile(setting: Option<Seq<char>>, exists: Seq<bool>) -> Seq<char> {
    match setting {
        Some(p) if trim_seq(p).len() > 0 => p,
        _ => if exists.len() > 0 && exists[0] {
            font_candidates()[0]
        } else if exists.len() > 1 && exists[1] {
            font_candidates()[1]
        } else if exists.len() > 2 && exists[2] {
            font_candidates()[2]
        } else if exists.len() > 3 && exists[3] {
            font_candidates()[3]
        } else {
            DEFAULT_SUBTITLE_FONTFILE@
        },
    }
}

/// The candidate font paths, in the order they are tried.
pub fn font_candidate_paths() -> (v: Vec<&'static str>)
    ensures
        v@.map_values(|s: &str| s@) == font_candidates(),
{
    let v = vec![
        "/usr/share/fonts/opentype/noto/NotoSansCJK-Regular.ttc",
        "/usr/share/fonts/opentype/noto/NotoSansCJK-Bold.ttc",
        "/usr/share/fonts/truetype/noto/NotoSansCJK-Regular.ttc",
        "/usr/share/fonts/truetype/dejavu/DejaVuSans.ttf",
    ];
    assert(v@.map_values(|s: &str| s@) =~= font_candidates());
    v
}

/// Chooses the font drawtext renders subtitles with.
pub fn choose_subtitle_fontfile(setting: Option<&str>, exists: &[bool]) -> (f: String)
    ensures
        f@ == chosen_fontfile(match setting {
            Some(v) => Some(v@),
            None => None,
        }, exists@),
{
    match setting {
        Some(p) => {
            if trim_chars(&chars_of(p)).len() > 0 {
                return owned(p);
            }
        },
        None => {},
    }
    let candidates = font_candidate_paths();
    assert(candidates@.len() == 4) by {
        assert(candidates@.map_values(|s: &str| s@).len() == 4);
    }
    let mut i: usize = 0;
    while i < 4
        invariant
            i <= 4,
            candidates@.map_values(|s: &str| s@) == font_candidates(),
            candidates@.len() == 4,
            forall|j: int| 0 <= j < i ==> !(j < exists@.len() && exists@[j]),
            match setting {
                Some(p) => trim_seq(p@).len() == 0,
                None => true,
            },
        decreases 4 - i,
    {
        if i < exists.len() && exists[i] {
            assert(candidates@[i as int]@ == font_candidates()[i as int]);
            return owned(candidates[i]);
        }
        i = i + 1;
    }
    owned(DEFAULT_SUBTITLE_FONTFILE)
}

/// Consecutive `404` answers after which the metrics reporter retires.
pub const MAX_CONSECUTIVE_NOT_FOUND: u32 = 2;

/// How one metrics report ended.
#[derive(Debug, Clone, Copy, PartialEq, Eq, Structural)]
pub enum MetricsReportOutcome {
    Delivered,
    NotFound,
    Failed,
}

/// The reporter's streak and whether it goes on after one report: a
/// delivery resets the streak, a `404` extends it and retires the reporter
/// at the limit, any other failure leaves it as it is.
pub open spec fn report_step(streak: u32, outcome: MetricsReportOutcome) -> (u32, bool) {
    match outcome {
        MetricsReportOutcome::Delivered => (0, true),
        MetricsReportOutcome::Failed => (streak, true),
        MetricsReportOutcome::NotFound => {
            let s: u32 = if streak == u32::MAX { u32::MAX } else { (streak + 1) as u32 };
            (s, s < MAX_CONSECUTIVE_NOT_FOUND)
        },
    }
}

/// The reporter's count of `404` answers in a row.
pub struct MetricsReporterState {
    pub consecutive_not_found: u32,
}

impl MetricsReporterState {
    pub fn new() -> (s: Self)
        ensures
            s.consecutive_not_found == 0,
    {
        MetricsReporterState { consecutive_not_found: 0 }
    }

    /// Counts a report's outcome; returns whether the reporter goes on.
    pub fn after_report(&mut self, outcome: MetricsReportOutcome) -> (go_on: bool)
        ensures
            (final(self).consecutive_not_found, go_on) == report_step(old(self).consecutive_not_found, outcome),
    {
        match outcome {
            MetricsReportOutcome::Delivered => {
                self.consecutive_not_found = 0;
                true
            },
            MetricsReportOutcome::NotFound => {
                if self.consecutive_not_found < u32::MAX {
                    self.consecutive_not_found = self.consecutive_not_found + 1;
                }
                self.consecutive_not_found < MAX_CONSECUTIVE_NOT_FOUND
            },
            MetricsReportOutcome::Failed => true,
        }
    }
}

/// A fresh reporter, or one that just delivered, survives any single next
/// report; it retires after two `404`s in a row.
pub proof fn lemma_reporter_retires_only_after_two_not_found(streak: u32, outcome: MetricsReportOutcome)
    ensures
        report_step(0, outcome).1,
        report_step(report_step(streak, MetricsReportOutcome::Delivered).0, outcome).1,
        !report_step(report_step(0, MetricsReportOutcome::NotFound).0, MetricsReportOutcome::NotFound).1,
{
}

} // verus!
