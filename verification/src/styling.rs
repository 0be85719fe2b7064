//! Lines of marked characters as `cursive` styled strings.
//!
//! The types and calls of `cursive` that the engine uses are declared here,
//! each with what is taken on trust about it. Everything else in this file is
//! proved from those declarations.

use vstd::prelude::*;
use cursive::theme::{
    BaseColor, Color, ColorStyle, ColorType, Effect, EffectStatus, Effects, PaletteColor, Style,
};
use cursive::utils::span::SpannedString;
use crate::render::{Emphasis, Glyph, StyledLine, glyph_chars};

verus! {

/// `cursive::theme::BaseColor`: one of the eight base colors of a terminal.
#[verifier::external_type_specification]
pub struct ExBaseColor(BaseColor);

/// `cursive::theme::Color`: a color a terminal can show.
#[verifier::external_type_specification]
pub struct ExColor(Color);

/// `cursive::theme::PaletteColor`: a color named by its role in the theme.
#[verifier::external_type_specification]
pub struct ExPaletteColor(PaletteColor);

/// `cursive::theme::ColorType`: a palette entry, a direct color, or the
/// parent's color.
#[verifier::external_type_specification]
pub struct ExColorType(ColorType);

/// `cursive::theme::ColorStyle`: a foreground and a background.
#[verifier::external_type_specification]
pub struct ExColorStyle(ColorStyle);

/// `cursive::theme::Effect`: one text effect, such as bold.
#[verifier::external_type_specification]
pub struct ExEffect(Effect);

/// `cursive::theme::EffectStatus`: what a style does with one effect.
#[verifier::external_type_specification]
pub struct ExEffectStatus(EffectStatus);

/// `cursive::theme::Effects`: a status for each effect. Its content is
/// spoken of through `effect_statuses`.
#[verifier::external_type_specification]
#[verifier::external_body]
pub struct ExEffects(Effects);

/// `cursive::theme::Style`: effects and a color style.
#[verifier::external_type_specification]
pub struct ExStyle(Style);

/// `cursive::utils::span::SpannedString`: a text cut into spans, each with
/// an attribute. Its content is spoken of through `styled_spans`.
#[verifier::external_type_specification]
#[verifier::external_body]
#[verifier::reject_recursive_types(T)]
pub struct ExSpannedString<T>(SpannedString<T>);

/// The status that a set of effects holds for each effect.
pub uninterp spec fn effect_statuses(effects: Effects) -> Map<Effect, EffectStatus>;

/// The spans of a styled string, first to last: the text of each and the
/// style it is shown in.
pub uninterp spec fn styled_spans(text: SpannedString<Style>) -> Seq<(Seq<char>, Style)>;

/// `Effects::only` returns the set in which the given effect is set to the
/// opposite of the parent's and every other effect is inherited.
pub assume_specification[ Effects::only ](effect: Effect) -> (effects: Effects)
    ensures
        effect_statuses(effects) == Map::total(
            |e: Effect|
                if e == effect {
                    EffectStatus::OppositeParent
                } else {
                    EffectStatus::InheritParent
                },
        ),
;

/// `ColorStyle::new`, called with two direct colors: the result holds them
/// as foreground and background.
#[verifier::external_body]
fn color_style(front: Color, back: Color) -> (style: ColorStyle)
    ensures
        style == (ColorStyle { front: ColorType::Color(front), back: ColorType::Color(back) }),
{
    ColorStyle::new(front, back)
}

/// `SpannedString::new` returns a styled string without any span.
#[verifier::external_body]
fn empty_styled() -> (text: SpannedString<Style>)
    ensures
        styled_spans(text) == Seq::<(Seq<char>, Style)>::empty(),
{
    SpannedString::new()
}

/// `SpannedString::<Style>::append_plain` adds one span at the end, with
/// the given text and with the style that changes nothing; the spans before
/// it stay as they were.
#[verifier::external_body]
fn append_plain(line: &mut SpannedString<Style>, text: String)
    ensures
        styled_spans(*final(line)).len() == styled_spans(*old(line)).len() + 1,
        styled_spans(*final(line)).drop_last() == styled_spans(*old(line)),
        styled_spans(*final(line)).last().0 == text@,
        is_unstyled(styled_spans(*final(line)).last().1),
{
    line.append_plain(text)
}

/// `SpannedString::<Style>::append_styled` adds one span at the end, with
/// the given text and style; the spans before it stay as they were.
#[verifier::external_body]
fn append_styled(line: &mut SpannedString<Style>, text: String, style: Style)
    ensures
        styled_spans(*final(line)) == styled_spans(*old(line)).push((text@, style)),
{
    line.append_styled(text, style)
}

/// Whether a set of effects leaves every effect as the parent has it.
pub open spec fn no_effect(effects: Effects) -> bool {
    effect_statuses(effects) == Map::total(
        |e: Effect| EffectStatus::InheritParent,
    )
}

/// Whether a set of effects turns on bold and leaves every other effect as
/// the parent has it.
pub open spec fn bold_only(effects: Effects) -> bool {
    effect_statuses(effects) == Map::total(
        |e: Effect|
            if e == Effect::Bold {
                EffectStatus::OppositeParent
            } else {
                EffectStatus::InheritParent
            },
    )
}

/// Whether a style changes nothing: no effect, and both colors inherited.
pub open spec fn is_unstyled(style: Style) -> bool {
    &&& no_effect(style.effects)
    &&& style.color == (ColorStyle {
        front: ColorType::InheritParent,
        back: ColorType::InheritParent,
    })
}

/// The foreground that a marked glyph is shown in: light cyan for an
/// emphasized one, dark white for an inactive one.
pub open spec fn highlight_front(tag: Emphasis) -> Color {
    if tag == Emphasis::Emphasized {
        Color::Light(BaseColor::Cyan)
    } else {
        Color::Dark(BaseColor::White)
    }
}

/// Whether `style` is how glyphs marked `tag` are shown. Plain glyphs are
/// left unstyled; marked glyphs are bold on dark blue, in the foreground of
/// their mark.
pub open spec fn shows(style: Style, tag: Emphasis) -> bool {
    if tag == Emphasis::Plain {
        is_unstyled(style)
    } else {
        &&& bold_only(style.effects)
        &&& style.color == (ColorStyle {
            front: ColorType::Color(highlight_front(tag)),
            back: ColorType::Color(Color::Dark(BaseColor::Blue)),
        })
    }
}

/// A line cut into runs: each run is a longest stretch of consecutive glyphs
/// with the same mark, given as its characters and that mark.
pub open spec fn runs(glyphs: Seq<Glyph>) -> Seq<(Seq<char>, Emphasis)>
    decreases glyphs.len(),
{
    if glyphs.len() == 0 {
        Seq::empty()
    } else {
        let before = runs(glyphs.drop_last());
        let glyph = glyphs.last();
        if before.len() > 0 && before.last().1 == glyph.tag {
            before.drop_last().push((before.last().0.push(glyph.ch), glyph.tag))
        } else {
            before.push((seq![glyph.ch], glyph.tag))
        }
    }
}

/// The texts of a sequence of runs, one after the other.
pub open spec fn joined(runs: Seq<(Seq<char>, Emphasis)>) -> Seq<char>
    decreases runs.len(),
{
    if runs.len() == 0 {
        Seq::empty()
    } else {
        joined(runs.drop_last()) + runs.last().0
    }
}

/// The runs of a line spell the line: joined, their texts are its
/// characters. No run is empty, and no two neighbours carry the same mark.
pub proof fn lemma_runs_spell_the_line(glyphs: Seq<Glyph>)
    ensures
        joined(runs(glyphs)) == glyph_chars(glyphs),
        glyphs.len() > 0 ==> runs(glyphs).len() > 0 && runs(glyphs).last().1 == glyphs.last().tag,
        forall|k: int| 0 <= k < runs(glyphs).len() ==> (#[trigger] runs(glyphs)[k]).0.len() > 0,
        forall|k: int|
            0 <= k < runs(glyphs).len() - 1 ==> (#[trigger] runs(glyphs)[k]).1 != runs(glyphs)[k
                + 1].1,
    decreases glyphs.len(),
{
    if glyphs.len() == 0 {
        assert(joined(runs(glyphs)) =~= glyph_chars(glyphs));
    } else {
        let rest = glyphs.drop_last();
        let before = runs(rest);
        let glyph = glyphs.last();
        lemma_runs_spell_the_line(rest);
        assert(glyph_chars(glyphs) =~= glyph_chars(rest).push(glyph.ch));
        if before.len() > 0 && before.last().1 == glyph.tag {
            let grown = (before.last().0.push(glyph.ch), glyph.tag);
            assert(runs(glyphs) == before.drop_last().push(grown));
            assert(runs(glyphs).drop_last() =~= before.drop_last());
            assert(joined(before) == joined(before.drop_last()) + before.last().0);
            assert(joined(runs(glyphs)) =~= joined(before).push(glyph.ch));
            assert forall|k: int| 0 <= k < runs(glyphs).len() - 1 implies (#[trigger] runs(
                glyphs,
            )[k]).1 != runs(glyphs)[k + 1].1 by {
                assert(runs(glyphs)[k] == before[k]);
                assert(runs(glyphs)[k + 1].1 == before[k + 1].1);
            }
            assert forall|k: int| 0 <= k < runs(glyphs).len() implies (#[trigger] runs(
                glyphs,
            )[k]).0.len() > 0 by {
                if k < runs(glyphs).len() - 1 {
                    assert(runs(glyphs)[k] == before[k]);
                }
            }
        } else {
            let fresh = (seq![glyph.ch], glyph.tag);
            assert(runs(glyphs) == before.push(fresh));
            assert(runs(glyphs).drop_last() =~= before);
            assert(joined(runs(glyphs)) =~= joined(before).push(glyph.ch));
            assert forall|k: int| 0 <= k < runs(glyphs).len() - 1 implies (#[trigger] runs(
                glyphs,
            )[k]).1 != runs(glyphs)[k + 1].1 by {
                assert(runs(glyphs)[k] == before[k]);
                if k + 1 < before.len() {
                    assert(runs(glyphs)[k + 1] == before[k + 1]);
                }
            }
            assert forall|k: int| 0 <= k < runs(glyphs).len() implies (#[trigger] runs(
                glyphs,
            )[k]).0.len() > 0 by {
                if k < before.len() {
                    assert(runs(glyphs)[k] == before[k]);
                }
            }
        }
    }
}

/// Whether the spans of a styled string are the runs of a line, each with
/// the text of its run and in the style of its mark.
pub open spec fn paints(spans: Seq<(Seq<char>, Style)>, glyphs: Seq<Glyph>) -> bool {
    &&& spans.len() == runs(glyphs).len()
    &&& forall|k: int|
        0 <= k < spans.len() ==> (#[trigger] spans[k]).0 == runs(glyphs)[k].0 && shows(
            spans[k].1,
            runs(glyphs)[k].1,
        )
}

/// A line without any mark is a single run, and so a single span.
pub proof fn lemma_plain_line_is_one_run(glyphs: Seq<Glyph>)
    requires
        glyphs.len() > 0,
        forall|p: int| 0 <= p < glyphs.len() ==> (#[trigger] glyphs[p]).tag == Emphasis::Plain,
    ensures
        runs(glyphs).len() == 1,
        runs(glyphs)[0].1 == Emphasis::Plain,
        runs(glyphs)[0].0 == Seq::new(glyphs.len(), |i: int| glyphs[i].ch),
    decreases glyphs.len(),
{
    if glyphs.len() > 1 {
        lemma_plain_line_is_one_run(glyphs.drop_last());
        assert(runs(glyphs)[0].0 =~= Seq::new(glyphs.len(), |i: int| glyphs[i].ch));
    } else {
        assert(runs(glyphs.drop_last()).len() == 0);
        assert(runs(glyphs)[0].0 =~= Seq::new(glyphs.len(), |i: int| glyphs[i].ch));
    }
}

/// The style of a marked glyph: bold on dark blue, light cyan where the
/// glyph is emphasized and dark white where it is inactive.
pub fn highlight_style(emphasized: bool) -> (style: Style)
    ensures
        shows(
            style,
            if emphasized {
                Emphasis::Emphasized
            } else {
                Emphasis::Inactive
            },
        ),
{
    let front: Color = if emphasized {
        Color::Light(BaseColor::Cyan)
    } else {
        Color::Dark(BaseColor::White)
    };
    Style { effects: Effects::only(Effect::Bold), color: color_style(front, Color::Dark(BaseColor::Blue)) }
}

/// Adds one run to a styled string, in the style of its mark.
fn append_run(text: &mut SpannedString<Style>, run: String, tag: Emphasis)
    ensures
        styled_spans(*final(text)).len() == styled_spans(*old(text)).len() + 1,
        styled_spans(*final(text)).drop_last() == styled_spans(*old(text)),
        styled_spans(*final(text)).last().0 == run@,
        shows(styled_spans(*final(text)).last().1, tag),
{
    match tag {
        Emphasis::Plain => append_plain(text, run),
        Emphasis::Emphasized => {
            let ghost before = styled_spans(*text);
            let style: Style = highlight_style(true);
            append_styled(text, run, style);
            assert(styled_spans(*text).drop_last() == before);
        },
        Emphasis::Inactive => {
            let ghost before = styled_spans(*text);
            let style: Style = highlight_style(false);
            append_styled(text, run, style);
            assert(styled_spans(*text).drop_last() == before);
        },
    }
}

/// Turns a line of marked characters into a styled string. Consecutive
/// glyphs with the same mark become one span; plain spans are left unstyled,
/// marked ones are given the style of their mark.
pub fn to_styled_string(line: &StyledLine) -> (text: SpannedString<Style>)
    ensures
        paints(styled_spans(text), line@),
{
    let mut text: SpannedString<Style> = empty_styled();
    let n: usize = line.glyphs.len();
    if n == 0 {
        return text;
    }
    let first: Glyph = line.glyphs[0];
    let mut run: String = String::new();
    run.push(first.ch);
    let mut tag: Emphasis = first.tag;
    let mut i: usize = 1;
    proof {
        let head = line@.take(1);
        assert(head.drop_last().len() == 0);
        assert(runs(head.drop_last()).len() == 0);
        assert(head.last() == first);
        assert(runs(head) == seq![(seq![first.ch], first.tag)]);
    }
    while i < n
        invariant
            1 <= i <= n,
            n == line@.len(),
            runs(line@.take(i as int)).len() == styled_spans(text).len() + 1,
            runs(line@.take(i as int)).last() == (run@, tag),
            forall|k: int|
                0 <= k < styled_spans(text).len() ==> (#[trigger] styled_spans(text)[k]).0 == runs(
                    line@.take(i as int),
                )[k].0 && shows(styled_spans(text)[k].1, runs(line@.take(i as int))[k].1),
        decreases n - i,
    {
        let glyph: Glyph = line.glyphs[i];
        proof {
            assert(line@.take(i + 1).drop_last() == line@.take(i as int));
            assert(line@.take(i + 1).last() == glyph);
        }
        if glyph.tag == tag {
            run.push(glyph.ch);
        } else {
            let mut done: String = String::new();
            std::mem::swap(&mut done, &mut run);
            append_run(&mut text, done, tag);
            run.push(glyph.ch);
            tag = glyph.tag;
            proof {
                let spans = styled_spans(text);
                assert forall|k: int| 0 <= k < spans.len() implies (#[trigger] spans[k]).0 == runs(
                    line@.take(i + 1),
                )[k].0 && shows(spans[k].1, runs(line@.take(i + 1))[k].1) by {
                    if k < spans.len() - 1 {
                        assert(spans[k] == spans.drop_last()[k]);
                    }
                }
            }
        }
        i += 1;
    }
    assert(line@.take(n as int) == line@);
    append_run(&mut text, run, tag);
    proof {
        let spans = styled_spans(text);
        assert forall|k: int| 0 <= k < spans.len() implies (#[trigger] spans[k]).0 == runs(
            line@,
        )[k].0 && shows(spans[k].1, runs(line@)[k].1) by {
            if k < spans.len() - 1 {
                assert(spans[k] == spans.drop_last()[k]);
            }
        }
    }
    text
}

} // verus!
