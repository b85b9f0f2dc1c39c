//! What holds of resolved settings whatever the sources say.

use vstd::prelude::*;
use crate::ratio::{argument_fallback, config_fallback, Ratio};
use crate::settings::{
    argument_ratio_texts, config_ratio_texts, merged, option_ratio_texts, resolved_ratio,
    wants_version, with_arguments, with_config, with_options, with_setting, RatioModel,
    SettingsModel,
};
use crate::text::{entry, has_equals, key_of, lemma_entry_splits, value_of};

verus! {

/// Two runs of one step, from `a0` to `a1` and from `b0` to `b1`, treat every
/// field alike: the step either gives it the same value in both runs or
/// leaves it as it was in both.
pub open spec fn alike(
    a0: SettingsModel,
    b0: SettingsModel,
    a1: SettingsModel,
    b1: SettingsModel,
) -> bool {
    &&& a1.image_file == b1.image_file || (a1.image_file == a0.image_file && b1.image_file
        == b0.image_file)
    &&& a1.ratio == b1.ratio || (a1.ratio == a0.ratio && b1.ratio == b0.ratio)
    &&& a1.gif_loop == b1.gif_loop || (a1.gif_loop == a0.gif_loop && b1.gif_loop == b0.gif_loop)
}

/// One entry treats every field alike, whatever the settings it is applied to.
pub proof fn lemma_setting_alike(
    a: SettingsModel,
    b: SettingsModel,
    key: Seq<char>,
    value: Seq<char>,
    fallback: Ratio,
)
    ensures
        alike(a, b, with_setting(a, key, value, fallback), with_setting(b, key, value, fallback)),
{
}

/// A configuration text treats every field alike.
pub proof fn lemma_config_alike(a: SettingsModel, b: SettingsModel, lines: Seq<Seq<char>>)
    ensures
        alike(a, b, with_config(a, lines), with_config(b, lines)),
    decreases lines.len(),
{
    if lines.len() == 0 || !has_equals(lines[0]) {
    } else {
        let a1 = with_setting(a, key_of(lines[0]), value_of(lines[0]), config_fallback());
        let b1 = with_setting(b, key_of(lines[0]), value_of(lines[0]), config_fallback());
        lemma_setting_alike(a, b, key_of(lines[0]), value_of(lines[0]), config_fallback());
        lemma_config_alike(a1, b1, lines.drop_first());
    }
}

/// A list of options treats every field alike.
pub proof fn lemma_options_alike(a: SettingsModel, b: SettingsModel, options: Seq<Seq<char>>)
    ensures
        alike(a, b, with_options(a, options), with_options(b, options)),
    decreases options.len(),
{
    if options.len() == 0 {
    } else if !has_equals(options[0]) {
        lemma_options_alike(a, b, options.drop_first());
    } else {
        let a1 = with_setting(a, key_of(options[0]), value_of(options[0]), argument_fallback());
        let b1 = with_setting(b, key_of(options[0]), value_of(options[0]), argument_fallback());
        lemma_setting_alike(a, b, key_of(options[0]), value_of(options[0]), argument_fallback());
        lemma_options_alike(a1, b1, options.drop_first());
    }
}

/// A command line treats every field alike.
pub proof fn lemma_arguments_alike(a: SettingsModel, b: SettingsModel, args: Seq<Seq<char>>)
    ensures
        alike(a, b, with_arguments(a, args), with_arguments(b, args)),
{
    if args.len() >= 2 {
        let options = args.subrange(2, args.len() as int);
        if args[1] == " "@ {
            lemma_options_alike(a, b, options);
        } else {
            let a1 = SettingsModel { image_file: args[1], ..a };
            let b1 = SettingsModel { image_file: args[1], ..b };
            lemma_options_alike(a1, b1, options);
        }
    }
}

/// Two settings with equal fields are equal.
proof fn lemma_settings_equal(a: SettingsModel, b: SettingsModel)
    requires
        a.image_file == b.image_file,
        a.ratio == b.ratio,
        a.gif_loop == b.gif_loop,
    ensures
        a == b,
{
}

/// Resolving is idempotent: applying the same configuration text and the same
/// command line to settings that were already resolved from them changes
/// nothing.
pub proof fn lemma_merge_idempotent(
    s: SettingsModel,
    lines: Seq<Seq<char>>,
    args: Seq<Seq<char>>,
)
    ensures
        merged(merged(s, lines, args), lines, args) == merged(s, lines, args),
{
    let once = merged(s, lines, args);
    let twice = merged(once, lines, args);
    let s1 = with_config(s, lines);
    let once1 = with_config(once, lines);
    lemma_config_alike(s, once, lines);
    lemma_arguments_alike(s1, once1, args);
    lemma_settings_equal(twice, once);
}

/// The three keys are different texts, and none of them holds an `=`.
pub proof fn lemma_keys()
    ensures
        "img"@ != "downscale_ratio"@,
        "img"@ != "gif_loop"@,
        "downscale_ratio"@ != "gif_loop"@,
        forall|j: int| 0 <= j < "img"@.len() ==> "img"@[j] != '=',
        forall|j: int| 0 <= j < "downscale_ratio"@.len() ==> "downscale_ratio"@[j] != '=',
        forall|j: int| 0 <= j < "gif_loop"@.len() ==> "gif_loop"@[j] != '=',
{
    reveal_strlit("img");
    reveal_strlit("downscale_ratio");
    reveal_strlit("gif_loop");
    assert("img"@.len() == 3);
    assert("downscale_ratio"@.len() == 15);
    assert("gif_loop"@.len() == 8);
}

/// A `gif_loop` entry whose value is neither `true` nor `false` leaves the
/// flag, and everything else, as it was.
pub proof fn lemma_unrecognized_loop_value(s: SettingsModel, value: Seq<char>, fallback: Ratio)
    requires
        value != "true"@,
        value != "false"@,
    ensures
        with_setting(s, "gif_loop"@, value, fallback) == s,
        with_setting(s, "gif_loop"@, value, fallback).gif_loop == s.gif_loop,
{
    lemma_keys();
}

/// The same holds of a configuration line and of a command-line option that
/// read `gif_loop=<value>`.
pub proof fn lemma_unrecognized_loop_entry(s: SettingsModel, value: Seq<char>)
    requires
        value != "true"@,
        value != "false"@,
    ensures
        with_config(s, seq![entry("gif_loop"@, value)]) == s,
        with_options(s, seq![entry("gif_loop"@, value)]) == s,
{
    lemma_keys();
    let line = entry("gif_loop"@, value);
    lemma_entry_splits("gif_loop"@, value);
    let lines = seq![line];
    assert(lines[0] == line);
    assert(lines.drop_first().len() == 0);
    lemma_unrecognized_loop_value(s, value, config_fallback());
    lemma_unrecognized_loop_value(s, value, argument_fallback());
    assert(with_config(s, lines.drop_first()) == s);
    assert(with_options(s, lines.drop_first()) == s);
}

/// A recognized `gif_loop` value sets the flag to what it says.
pub proof fn lemma_loop_value_sets_flag(s: SettingsModel, fallback: Ratio)
    ensures
        with_setting(s, "gif_loop"@, "true"@, fallback) == (SettingsModel { gif_loop: true, ..s }),
        with_setting(s, "gif_loop"@, "false"@, fallback) == (SettingsModel {
            gif_loop: false,
            ..s
        }),
{
    lemma_keys();
    reveal_strlit("true");
    reveal_strlit("false");
    assert("true"@.len() == 4);
    assert("false"@.len() == 5);
}

/// A `downscale_ratio` entry makes the divisor the number that the value reads
/// as, exactly, or the fallback if the value reads as none; nothing else
/// changes.
pub proof fn lemma_ratio_entry_resolves(
    s: SettingsModel,
    value: Seq<char>,
    fallback: Ratio,
    parsed: Option<Ratio>,
)
    ensures
        with_setting(s, "downscale_ratio"@, value, fallback) == (SettingsModel {
            ratio: RatioModel::Unread { text: value, fallback },
            ..s
        }),
        parsed matches Some(r) ==> resolved_ratio(
            with_setting(s, "downscale_ratio"@, value, fallback).ratio,
            parsed,
        ) == r,
        parsed is None ==> resolved_ratio(
            with_setting(s, "downscale_ratio"@, value, fallback).ratio,
            parsed,
        ) == fallback,
{
    lemma_keys();
}

/// The fallback is 1.5 for a configuration line and 2 for a command-line
/// option.
pub proof fn lemma_ratio_fallbacks(s: SettingsModel, value: Seq<char>)
    ensures
        resolved_ratio(
            with_config(s, seq![entry("downscale_ratio"@, value)]).ratio,
            None,
        ) == config_fallback(),
        resolved_ratio(
            with_options(s, seq![entry("downscale_ratio"@, value)]).ratio,
            None,
        ) == argument_fallback(),
{
    lemma_keys();
    let line = entry("downscale_ratio"@, value);
    lemma_entry_splits("downscale_ratio"@, value);
    let lines = seq![line];
    assert(lines[0] == line);
    assert(lines.drop_first().len() == 0);
    let c = with_setting(s, "downscale_ratio"@, value, config_fallback());
    let a = with_setting(s, "downscale_ratio"@, value, argument_fallback());
    assert(with_config(c, lines.drop_first()) == c);
    assert(with_options(a, lines.drop_first()) == a);
}

/// The divisor after a source whose `downscale_ratio` values are `found`: as
/// it was where there is none, and otherwise the last of them, pending.
pub open spec fn ratio_after(before: RatioModel, found: Seq<Seq<char>>, fallback: Ratio) -> RatioModel {
    if found.len() == 0 {
        before
    } else {
        RatioModel::Unread { text: found.last(), fallback }
    }
}

/// Of the `downscale_ratio` values that a configuration text applies, the
/// last one is the one that holds afterwards.
pub proof fn lemma_config_ratio_is_last(s: SettingsModel, lines: Seq<Seq<char>>)
    ensures
        with_config(s, lines).ratio == ratio_after(
            s.ratio,
            config_ratio_texts(lines),
            config_fallback(),
        ),
    decreases lines.len(),
{
    lemma_keys();
    if lines.len() == 0 || !has_equals(lines[0]) {
    } else {
        let after = with_setting(s, key_of(lines[0]), value_of(lines[0]), config_fallback());
        lemma_config_ratio_is_last(after, lines.drop_first());
        let later = config_ratio_texts(lines.drop_first());
        if key_of(lines[0]) == "downscale_ratio"@ {
            let found = seq![value_of(lines[0])] + later;
            if later.len() > 0 {
                assert(found.last() == later.last());
            } else {
                assert(found.last() == value_of(lines[0]));
            }
        }
    }
}

/// Of the `downscale_ratio` options in a list of arguments, the last one is
/// the one that holds afterwards.
pub proof fn lemma_options_ratio_is_last(s: SettingsModel, options: Seq<Seq<char>>)
    ensures
        with_options(s, options).ratio == ratio_after(
            s.ratio,
            option_ratio_texts(options),
            argument_fallback(),
        ),
    decreases options.len(),
{
    lemma_keys();
    if options.len() == 0 {
    } else if !has_equals(options[0]) {
        lemma_options_ratio_is_last(s, options.drop_first());
    } else {
        let after = with_setting(s, key_of(options[0]), value_of(options[0]), argument_fallback());
        lemma_options_ratio_is_last(after, options.drop_first());
        let later = option_ratio_texts(options.drop_first());
        if key_of(options[0]) == "downscale_ratio"@ {
            let found = seq![value_of(options[0])] + later;
            if later.len() > 0 {
                assert(found.last() == later.last());
            } else {
                assert(found.last() == value_of(options[0]));
            }
        }
    }
}

/// Of the `downscale_ratio` options that a command line applies, the last one
/// is the one that holds afterwards.
pub proof fn lemma_arguments_ratio_is_last(s: SettingsModel, args: Seq<Seq<char>>)
    ensures
        with_arguments(s, args).ratio == ratio_after(
            s.ratio,
            argument_ratio_texts(args),
            argument_fallback(),
        ),
{
    if args.len() >= 2 && !wants_version(args) {
        let options = args.subrange(2, args.len() as int);
        if args[1] == " "@ {
            lemma_options_ratio_is_last(s, options);
        } else {
            lemma_options_ratio_is_last(SettingsModel { image_file: args[1], ..s }, options);
        }
    }
}

/// An entry with any other key changes nothing.
pub proof fn lemma_unknown_key(s: SettingsModel, key: Seq<char>, value: Seq<char>, fallback: Ratio)
    requires
        key != "img"@,
        key != "downscale_ratio"@,
        key != "gif_loop"@,
    ensures
        with_setting(s, key, value, fallback) == s,
{
}

/// What the command line sets, the configuration text cannot override: the
/// resolved settings are those of the command line applied last.
pub proof fn lemma_arguments_win(
    s: SettingsModel,
    lines: Seq<Seq<char>>,
    args: Seq<Seq<char>>,
    other_lines: Seq<Seq<char>>,
)
    ensures
        alike(
            with_config(s, lines),
            with_config(s, other_lines),
            merged(s, lines, args),
            merged(s, other_lines, args),
        ),
{
    lemma_arguments_alike(with_config(s, lines), with_config(s, other_lines), args);
}

} // verus!
