//! The context-window segment: how much of the model's context the session
//! uses, as a percentage, a ten-cell bar coloured by the level of use, and a
//! token count.
use vstd::prelude::*;

use crate::segment::{metadata_view, SegmentData};
use crate::text::{concat, decimal, decimal_string, lemma_parse_decimal, parse_u64, to_string};

verus! {

broadcast use vstd::string::group_string_axioms;

/// Shows how full the context window is.
pub struct ContextWindowSegment {
    show_tokens: bool,
    color_low: String,
    color_mid: String,
    color_high: String,
}

/// The settings of a context-window segment.
pub struct ContextWindowSettings {
    pub show_tokens: bool,
    pub color_low: Seq<char>,
    pub color_mid: Seq<char>,
    pub color_high: Seq<char>,
}

impl View for ContextWindowSegment {
    type V = ContextWindowSettings;

    closed spec fn view(&self) -> ContextWindowSettings {
        ContextWindowSettings {
            show_tokens: self.show_tokens,
            color_low: self.color_low@,
            color_mid: self.color_mid@,
            color_high: self.color_high@,
        }
    }
}

/// The ANSI escape that selects foreground colour `n` of the 256-colour palette.
pub open spec fn ansi_color(n: nat) -> Seq<char> {
    "\x1b[38;5;"@ + decimal(n) + "m"@
}

/// The ANSI escape that resets all attributes.
pub open spec fn ansi_reset() -> Seq<char> {
    "\x1b[0m"@
}

/// How full the context window is, by the share of the limit in use.
pub enum UsageLevel {
    /// At most 50%.
    Low,
    /// Over 50%, at most 80%.
    Mid,
    /// Over 80%, or no limit known.
    High,
}

/// The level of use of `tokens` out of `limit`: the percentage `100 * tokens
/// / limit` compared with 50 and 80. A limit of 0 counts as full.
pub open spec fn usage_level(tokens: int, limit: int) -> UsageLevel {
    if limit > 0 && tokens * 100 <= 50 * limit {
        UsageLevel::Low
    } else if limit > 0 && tokens * 100 <= 80 * limit {
        UsageLevel::Mid
    } else {
        UsageLevel::High
    }
}

/// The colour for a level of use.
pub open spec fn level_color(s: ContextWindowSettings, level: UsageLevel) -> Seq<char> {
    match level {
        UsageLevel::Low => s.color_low,
        UsageLevel::Mid => s.color_mid,
        UsageLevel::High => s.color_high,
    }
}

/// The number of filled cells of the ten-cell bar: `10 * tokens / limit`
/// rounded to the nearest integer, halves up; none when the limit is 0.
pub open spec fn filled_cells(tokens: int, limit: int) -> int {
    if limit <= 0 {
        0
    } else {
        (20 * tokens + limit) / (2 * limit)
    }
}

/// The bar can be drawn: at most ten cells are filled (use below 105% of the
/// limit), and a limit of 0 comes with no tokens.
pub open spec fn bar_fits(tokens: int, limit: int) -> bool {
    if limit <= 0 {
        tokens == 0
    } else {
        20 * tokens < 21 * limit
    }
}

/// `n` copies of `c`.
pub open spec fn repeat(c: char, n: nat) -> Seq<char> {
    Seq::new(n, |i: int| c)
}

/// The bar: the colour, the filled cells `▓`, the empty cells `░`, and the reset.
pub open spec fn progress_bar_text(color: Seq<char>, filled: nat) -> Seq<char> {
    color + repeat('\u{2593}', filled) + repeat('\u{2591}', (10 - filled) as nat) + ansi_reset()
}

/// The token count as shown: below 1000 in full; from 1000 on in thousands
/// with a `k`, whole when exact, otherwise as `tenths` (the count in
/// thousands written with one decimal).
pub open spec fn token_count_text(tokens: nat, tenths: Seq<char>) -> Seq<char> {
    if tokens >= 1000 {
        if tokens % 1000 == 0 {
            decimal(tokens / 1000) + "k"@
        } else {
            tenths + "k"@
        }
    } else {
        decimal(tokens)
    }
}

/// The figures of a known usage, the texts of which are written elsewhere
/// from the floating-point percentage.
pub struct UsageFigures {
    /// The tokens in use.
    pub tokens: u32,
    /// The percentage as shown, with its `%`.
    pub percentage_text: String,
    /// The percentage in full, for the metadata.
    pub rate_text: String,
    /// The tokens in thousands with one decimal.
    pub thousands_text: String,
}

/// The main text of the segment.
pub open spec fn context_primary(
    s: ContextWindowSettings,
    limit: int,
    usage: Option<(u32, Seq<char>, Seq<char>)>,
) -> Seq<char> {
    match usage {
        Some((tokens, percentage, thousands)) => {
            let bar = progress_bar_text(
                level_color(s, usage_level(tokens as int, limit)),
                filled_cells(tokens as int, limit) as nat,
            );
            if s.show_tokens {
                percentage + " "@ + bar + " · "@ + token_count_text(tokens as nat, thousands)
                    + " tokens"@
            } else {
                percentage + " "@ + bar
            }
        },
        None => "- · - tokens"@,
    }
}

/// The metadata of the segment.
pub open spec fn context_metadata(
    model_id: Seq<char>,
    limit: nat,
    usage: Option<(u32, Seq<char>)>,
) -> Seq<(Seq<char>, Seq<char>)> {
    let known = match usage {
        Some((tokens, rate)) => seq![
            ("tokens"@, decimal(tokens as nat)),
            ("percentage"@, rate),
        ],
        None => seq![("tokens"@, "-"@), ("percentage"@, "-"@)],
    };
    known + seq![("limit"@, decimal(limit)), ("model"@, model_id)]
}

/// The bar always has ten cells: `filled` filled ones, then empty ones,
/// between the colour and the reset.
pub proof fn lemma_bar_has_ten_cells(color: Seq<char>, filled: nat)
    requires
        filled <= 10,
    ensures
        ({
            let cells = progress_bar_text(color, filled).subrange(
                color.len() as int,
                color.len() + 10int,
            );
            &&& progress_bar_text(color, filled) == color + cells + ansi_reset()
            &&& forall|k: int| 0 <= k < 10 ==> (#[trigger] cells[k] == '\u{2593}' <==> k < filled)
        }),
{
    let cells = repeat('\u{2593}', filled) + repeat('\u{2591}', (10 - filled) as nat);
    let bar = progress_bar_text(color, filled);
    assert(bar == color + cells + ansi_reset());
    assert(bar.subrange(color.len() as int, color.len() + 10int) =~= cells);
    assert(color + cells + ansi_reset() =~= color + bar.subrange(color.len() as int, color.len() + 10int) + ansi_reset());
}

/// The level of use, and so the colour, only rises as more tokens are in use.
pub proof fn lemma_level_rises_with_use(t1: int, t2: int, limit: int)
    requires
        0 <= t1 <= t2,
    ensures
        usage_level(t2, limit) is Low ==> usage_level(t1, limit) is Low,
        usage_level(t2, limit) is Mid ==> !(usage_level(t1, limit) is High),
{
}

/// A token count is written as a whole number of thousands exactly when it
/// is a multiple of 1000 (from 1000 on): the text is then digits that read
/// back as the count divided by 1000, followed by `k`. Any other count from
/// 1000 on is written as its one-decimal thousands text followed by `k`, and
/// a count below 1000 as the digits that read back as the count.
pub proof fn lemma_token_count_forms(tokens: u32, tenths: Seq<char>)
    ensures
        tokens < 1000 ==> parse_u64(token_count_text(tokens as nat, tenths)) == Some(tokens as u64),
        tokens >= 1000 && tokens % 1000 == 0 ==> ({
            let text = token_count_text(tokens as nat, tenths);
            &&& text.last() == 'k'
            &&& parse_u64(text.drop_last()) == Some((tokens / 1000) as u64)
            &&& (tokens / 1000) * 1000 == tokens
        }),
        tokens >= 1000 && tokens % 1000 != 0 ==> token_count_text(tokens as nat, tenths) == tenths
            + "k"@,
{
    reveal_strlit("k");
    if tokens < 1000 {
        lemma_parse_decimal(tokens as u64);
    } else if tokens % 1000 == 0 {
        lemma_parse_decimal((tokens / 1000) as u64);
        let d = decimal((tokens / 1000) as nat);
        assert((d + "k"@).drop_last() =~= d);
    }
}

/// The colour thresholds: use is low while the tokens are at most half the
/// limit, middle while they are at most four fifths of it, and high above
/// that or when the limit is 0.
pub proof fn lemma_usage_level_thresholds(tokens: nat, limit: nat)
    ensures
        usage_level(tokens as int, limit as int) is Low <==> (limit > 0 && 2 * tokens <= limit),
        usage_level(tokens as int, limit as int) is Mid <==> (limit > 0 && 2 * tokens > limit && 5
            * tokens <= 4 * limit),
        usage_level(tokens as int, limit as int) is High <==> (limit == 0 || 5 * tokens > 4 * limit),
{
}

/// The bar fills the whole number of cells nearest to the ten-cell share of
/// the limit in use, a half rounding up: `filled - 1/2 <= 10 * tokens / limit
/// < filled + 1/2`.
pub proof fn lemma_filled_cells_nearest(tokens: nat, limit: nat)
    requires
        limit > 0,
    ensures
        filled_cells(tokens as int, limit as int) >= 0,
        (2 * filled_cells(tokens as int, limit as int) - 1) * limit <= 20 * tokens,
        20 * tokens < (2 * filled_cells(tokens as int, limit as int) + 1) * limit,
{
    let f = filled_cells(tokens as int, limit as int);
    assert(f == (20 * tokens + limit) / (2 * limit));
    assert(f >= 0 && f * (2 * limit) <= 20 * tokens + limit && 20 * tokens + limit < (f + 1) * (2
        * limit)) by (nonlinear_arith)
        requires
            f == (20 * tokens + limit) / (2 * limit),
            limit > 0,
    ;
    assert((2 * f - 1) * limit <= 20 * tokens && 20 * tokens < (2 * f + 1) * limit)
        by (nonlinear_arith)
        requires
            f * (2 * limit) <= 20 * tokens + limit,
            20 * tokens + limit < (f + 1) * (2 * limit),
    ;
}

/// The escape that selects colour `n`.
pub fn ansi_color_code(n: u8) -> (s: String)
    ensures
        s@ == ansi_color(n as nat),
{
    let mut s = concat("\x1b[38;5;", decimal_string(n as u64).as_str());
    s.append("m");
    s
}

/// A bar of `filled` filled cells out of ten, in `color`.
pub fn progress_bar(color: &str, filled: u64) -> (s: String)
    requires
        filled <= 10,
    ensures
        s@ == progress_bar_text(color@, filled as nat),
{
    let mut s = to_string(color);
    let mut k: u64 = 0;
    while k < filled
        invariant
            k <= filled <= 10,
            s@ == color@ + repeat('\u{2593}', k as nat),
        decreases filled - k,
    {
        s.append("\u{2593}");
        proof {
            reveal_strlit("\u{2593}");
            assert(repeat('\u{2593}', k as nat) + "\u{2593}"@ =~= repeat('\u{2593}', (k + 1) as nat));
        }
        k = k + 1;
    }
    let mut e: u64 = 0;
    while e < 10 - filled
        invariant
            e <= 10 - filled,
            filled <= 10,
            s@ == color@ + repeat('\u{2593}', filled as nat) + repeat('\u{2591}', e as nat),
        decreases 10 - filled - e,
    {
        s.append("\u{2591}");
        proof {
            reveal_strlit("\u{2591}");
            assert(repeat('\u{2591}', e as nat) + "\u{2591}"@ =~= repeat('\u{2591}', (e + 1) as nat));
        }
        e = e + 1;
    }
    s.append("\x1b[0m");
    s
}

/// The token count as shown.
pub fn token_count(tokens: u32, thousands_text: &str) -> (s: String)
    ensures
        s@ == token_count_text(tokens as nat, thousands_text@),
{
    if tokens >= 1000 {
        if tokens % 1000 == 0 {
            let mut s = decimal_string((tokens / 1000) as u64);
            s.append("k");
            s
        } else {
            concat(thousands_text, "k")
        }
    } else {
        decimal_string(tokens as u64)
    }
}

/// Whether `tokens` out of `limit` can be drawn as a bar.
pub fn usage_fits_bar(tokens: u32, limit: u32) -> (b: bool)
    ensures
        b == bar_fits(tokens as int, limit as int),
{
    if limit == 0 {
        tokens == 0
    } else {
        20 * (tokens as u64) < 21 * (limit as u64)
    }
}

impl ContextWindowSegment {
    /// A segment that shows the token count, with green, yellow and red as
    /// the colours of low, middle and high use.
    pub fn new() -> (s: Self)
        ensures
            s@ == (ContextWindowSettings {
                show_tokens: true,
                color_low: ansi_color(114),
                color_mid: ansi_color(179),
                color_high: ansi_color(167),
            }),
    {
        ContextWindowSegment {
            show_tokens: true,
            color_low: ansi_color_code(114),
            color_mid: ansi_color_code(179),
            color_high: ansi_color_code(167),
        }
    }

    /// The segment, showing the token count or not.
    pub fn with_show_tokens(self, show: bool) -> (s: Self)
        ensures
            s@ == (ContextWindowSettings { show_tokens: show, ..self@ }),
    {
        let mut s = self;
        s.show_tokens = show;
        s
    }

    /// The segment with the colours of the palette entries given; a colour
    /// not given stays as it was.
    pub fn with_colors(self, low: Option<u8>, mid: Option<u8>, high: Option<u8>) -> (s: Self)
        ensures
            s@.show_tokens == self@.show_tokens,
            s@.color_low == match low {
                Some(n) => ansi_color(n as nat),
                None => self@.color_low,
            },
            s@.color_mid == match mid {
                Some(n) => ansi_color(n as nat),
                None => self@.color_mid,
            },
            s@.color_high == match high {
                Some(n) => ansi_color(n as nat),
                None => self@.color_high,
            },
    {
        let mut s = self;
        if let Some(n) = low {
            s.color_low = ansi_color_code(n);
        }
        if let Some(n) = mid {
            s.color_mid = ansi_color_code(n);
        }
        if let Some(n) = high {
            s.color_high = ansi_color_code(n);
        }
        s
    }

    /// The colour for `tokens` in use out of `limit`.
    pub fn get_status_color(&self, tokens: u32, limit: u32) -> (c: &str)
        ensures
            c@ == level_color(self@, usage_level(tokens as int, limit as int)),
    {
        let t = tokens as u64;
        let l = limit as u64;
        if l > 0 && t * 100 <= 50 * l {
            self.color_low.as_str()
        } else if l > 0 && t * 100 <= 80 * l {
            self.color_mid.as_str()
        } else {
            self.color_high.as_str()
        }
    }

    /// The coloured bar for `tokens` in use out of `limit`.
    pub fn usage_bar(&self, tokens: u32, limit: u32) -> (s: String)
        requires
            bar_fits(tokens as int, limit as int),
        ensures
            s@ == progress_bar_text(
                level_color(self@, usage_level(tokens as int, limit as int)),
                filled_cells(tokens as int, limit as int) as nat,
            ),
    {
        let filled: u64 = if limit == 0 {
            0
        } else {
            (20 * (tokens as u64) + limit as u64) / (2 * (limit as u64))
        };
        assert(filled <= 10) by {
            if limit > 0 {
                assert((20 * tokens + limit) / (2 * limit as int) <= 10) by (nonlinear_arith)
                    requires
                        20 * tokens < 21 * limit,
                        limit > 0,
                ;
            }
        }
        progress_bar(self.get_status_color(tokens, limit), filled)
    }

    /// Renders the segment for the model `model_id` whose context holds
    /// `limit` tokens, with the usage when it is known.
    pub fn collect(&self, model_id: &str, limit: u32, usage: Option<UsageFigures>) -> (d:
        SegmentData)
        requires
            usage matches Some(u) ==> bar_fits(u.tokens as int, limit as int),
        ensures
            d.primary@ == context_primary(
                self@,
                limit as int,
                match usage {
                    Some(u) => Some((u.tokens, u.percentage_text@, u.thousands_text@)),
                    None => None,
                },
            ),
            d.secondary@ == Seq::<char>::empty(),
            metadata_view(d.metadata@) == context_metadata(
                model_id@,
                limit as nat,
                match usage {
                    Some(u) => Some((u.tokens, u.rate_text@)),
                    None => None,
                },
            ),
    {
        let mut metadata: Vec<(String, String)> = Vec::new();
        let primary = match &usage {
            Some(u) => {
                metadata.push((to_string("tokens"), decimal_string(u.tokens as u64)));
                metadata.push((to_string("percentage"), u.rate_text.clone()));
                let bar = self.usage_bar(u.tokens, limit);
                let mut p = concat(u.percentage_text.as_str(), " ");
                p.append(bar.as_str());
                if self.show_tokens {
                    p.append(" · ");
                    p.append(token_count(u.tokens, u.thousands_text.as_str()).as_str());
                    p.append(" tokens");
                }
                p
            },
            None => {
                metadata.push((to_string("tokens"), to_string("-")));
                metadata.push((to_string("percentage"), to_string("-")));
                to_string("- · - tokens")
            },
        };
        metadata.push((to_string("limit"), decimal_string(limit as u64)));
        metadata.push((to_string("model"), to_string(model_id)));
        assert(metadata_view(metadata@) =~= context_metadata(
            model_id@,
            limit as nat,
            match usage {
                Some(u) => Some((u.tokens, u.rate_text@)),
                None => None,
            },
        ));
        SegmentData { primary, secondary: String::new(), metadata }
    }
}

impl Default for ContextWindowSegment {
    fn default() -> (s: Self)
        ensures
            s@ == (ContextWindowSettings {
                show_tokens: true,
                color_low: ansi_color(114),
                color_mid: ansi_color(179),
                color_high: ansi_color(167),
            }),
    {
        Self::new()
    }
}

} // verus!
