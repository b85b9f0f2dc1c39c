//! Settings and how they are resolved.
//!
//! Settings start from defaults, take the entries of a configuration text
//! line by line, and then the command-line arguments, which therefore win.
//! Within either source the last entry for a key wins.
//!
//! The divisor's value arrives as text. Reading that text as a number is left
//! to the caller; until then the settings keep the text together with the
//! number that replaces it if it cannot be read.

use vstd::prelude::*;
use crate::ratio::{argument_fallback, config_fallback, initial_ratio, Ratio};
use crate::text::{has_equals, key_of, same_text, split_entry, value_of};

verus! {

/// The version that the program reports.
pub const VERSION: &'static str = "2.1.1";

/// The downscale divisor as far as it is known.
#[derive(Clone, Debug, PartialEq, Eq)]
pub enum RatioSetting {
    /// A number.
    Known(Ratio),
    /// Text still to be read as a number, and the number that stands in if it
    /// is none.
    Unread { text: String, fallback: Ratio },
}

/// What the viewer is asked to do.
#[derive(Clone, Debug, PartialEq, Eq)]
pub struct Settings {
    pub image_file: String,
    pub downscale_ratio_per_pix: RatioSetting,
    pub gif_loop: bool,
}

/// What the caller does once the arguments are read.
#[derive(Clone, Copy, Debug, PartialEq, Eq, Structural)]
pub enum ArgsOutcome {
    /// Go on with the settings.
    Proceed,
    /// Report the version and stop; the settings were left alone.
    ShowVersion,
}

/// The mathematical content of a [`RatioSetting`].
pub enum RatioModel {
    Known(Ratio),
    Unread { text: Seq<char>, fallback: Ratio },
}

/// The mathematical content of [`Settings`].
pub struct SettingsModel {
    pub image_file: Seq<char>,
    pub ratio: RatioModel,
    pub gif_loop: bool,
}

impl View for RatioSetting {
    type V = RatioModel;

    open spec fn view(&self) -> RatioModel {
        match *self {
            RatioSetting::Known(r) => RatioModel::Known(r),
            RatioSetting::Unread { text, fallback } => RatioModel::Unread { text: text@, fallback },
        }
    }
}

impl View for Settings {
    type V = SettingsModel;

    open spec fn view(&self) -> SettingsModel {
        SettingsModel {
            image_file: self.image_file@,
            ratio: self.downscale_ratio_per_pix@,
            gif_loop: self.gif_loop,
        }
    }
}

/// The settings before any source is read: no image, divisor 2, no looping.
pub open spec fn initial_settings() -> SettingsModel {
    SettingsModel {
        image_file: Seq::empty(),
        ratio: RatioModel::Known(initial_ratio()),
        gif_loop: false,
    }
}

/// The views of a list of texts.
pub open spec fn texts(items: Seq<String>) -> Seq<Seq<char>> {
    Seq::new(items.len(), |i: int| items[i]@)
}

/// The divisor once its text has been read: `parsed` is the number that the
/// text stands for, or `None` if it stands for none.
pub open spec fn resolved_ratio(ratio: RatioModel, parsed: Option<Ratio>) -> Ratio {
    match ratio {
        RatioModel::Known(r) => r,
        RatioModel::Unread { text, fallback } => match parsed {
            Some(r) => r,
            None => fallback,
        },
    }
}

/// The settings after one `key=value` entry. `img` sets the image,
/// `downscale_ratio` the divisor's text, `gif_loop` the loop flag if the value
/// is `true` or `false`; anything else changes nothing.
pub open spec fn with_setting(
    s: SettingsModel,
    key: Seq<char>,
    value: Seq<char>,
    fallback: Ratio,
) -> SettingsModel {
    if key == "img"@ {
        SettingsModel { image_file: value, ..s }
    } else if key == "downscale_ratio"@ {
        SettingsModel { ratio: RatioModel::Unread { text: value, fallback }, ..s }
    } else if key == "gif_loop"@ {
        if value == "true"@ {
            SettingsModel { gif_loop: true, ..s }
        } else if value == "false"@ {
            SettingsModel { gif_loop: false, ..s }
        } else {
            s
        }
    } else {
        s
    }
}

/// The settings after the lines of a configuration text: each line is an
/// entry, and the first line without `=` ends the reading.
pub open spec fn with_config(s: SettingsModel, lines: Seq<Seq<char>>) -> SettingsModel
    decreases lines.len(),
{
    if lines.len() == 0 || !has_equals(lines[0]) {
        s
    } else {
        with_config(
            with_setting(s, key_of(lines[0]), value_of(lines[0]), config_fallback()),
            lines.drop_first(),
        )
    }
}

/// The settings after a list of `key=value` arguments: an argument without
/// `=` is passed over.
pub open spec fn with_options(s: SettingsModel, options: Seq<Seq<char>>) -> SettingsModel
    decreases options.len(),
{
    if options.len() == 0 {
        s
    } else if !has_equals(options[0]) {
        with_options(s, options.drop_first())
    } else {
        with_options(
            with_setting(s, key_of(options[0]), value_of(options[0]), argument_fallback()),
            options.drop_first(),
        )
    }
}

/// The command line asks for the version: its first argument after the
/// program's name is `-v` or `--version`.
pub open spec fn wants_version(args: Seq<Seq<char>>) -> bool {
    args.len() >= 2 && (args[1] == "-v"@ || args[1] == "--version"@)
}

/// The settings after a command line `program [imagefile] [key=value ...]`.
/// The first argument after the program's name is the image unless it is a
/// single blank; the arguments after it are options.
pub open spec fn with_arguments(s: SettingsModel, args: Seq<Seq<char>>) -> SettingsModel {
    if args.len() < 2 || wants_version(args) {
        s
    } else {
        let named = if args[1] == " "@ {
            s
        } else {
            SettingsModel { image_file: args[1], ..s }
        };
        with_options(named, args.subrange(2, args.len() as int))
    }
}

/// The values of the `downscale_ratio` lines that a configuration text
/// applies, in their order.
pub open spec fn config_ratio_texts(lines: Seq<Seq<char>>) -> Seq<Seq<char>>
    decreases lines.len(),
{
    if lines.len() == 0 || !has_equals(lines[0]) {
        Seq::empty()
    } else if key_of(lines[0]) == "downscale_ratio"@ {
        seq![value_of(lines[0])] + config_ratio_texts(lines.drop_first())
    } else {
        config_ratio_texts(lines.drop_first())
    }
}

/// The values of the `downscale_ratio` options in a list of arguments, in
/// their order.
pub open spec fn option_ratio_texts(options: Seq<Seq<char>>) -> Seq<Seq<char>>
    decreases options.len(),
{
    if options.len() == 0 {
        Seq::empty()
    } else if has_equals(options[0]) && key_of(options[0]) == "downscale_ratio"@ {
        seq![value_of(options[0])] + option_ratio_texts(options.drop_first())
    } else {
        option_ratio_texts(options.drop_first())
    }
}

/// The values of the `downscale_ratio` options that a command line applies,
/// in their order.
pub open spec fn argument_ratio_texts(args: Seq<Seq<char>>) -> Seq<Seq<char>> {
    if args.len() < 2 || wants_version(args) {
        Seq::empty()
    } else {
        option_ratio_texts(args.subrange(2, args.len() as int))
    }
}

/// The settings after the configuration text and then the command line.
pub open spec fn merged(
    s: SettingsModel,
    lines: Seq<Seq<char>>,
    args: Seq<Seq<char>>,
) -> SettingsModel {
    with_arguments(with_config(s, lines), args)
}

impl RatioSetting {
    /// The text that is still to be read as a number, if there is one.
    pub fn pending_text(&self) -> (text: Option<String>)
        ensures
            match self@ {
                RatioModel::Known(_) => text is None,
                RatioModel::Unread { text: t, .. } => text is Some && text->0@ == t,
            },
    {
        match self {
            RatioSetting::Known(_) => None,
            RatioSetting::Unread { text, .. } => Some(text.clone()),
        }
    }

    /// The divisor, given what its pending text reads as: `parsed` is the
    /// number, or `None` if the text is no number. A known divisor is returned
    /// whatever `parsed` is.
    pub fn resolve(&self, parsed: Option<Ratio>) -> (r: Ratio)
        ensures
            r == resolved_ratio(self@, parsed),
    {
        match self {
            RatioSetting::Known(r) => *r,
            RatioSetting::Unread { fallback, .. } => match parsed {
                Some(r) => r,
                None => *fallback,
            },
        }
    }
}

impl Settings {
    /// The settings before any source is read.
    pub fn new() -> (s: Settings)
        ensures
            s@ == initial_settings(),
    {
        Settings {
            image_file: String::new(),
            downscale_ratio_per_pix: RatioSetting::Known(Ratio::two()),
            gif_loop: false,
        }
    }

    /// Replaces a pending text by the number it reads as, or by its fallback.
    pub fn settle_ratio(&mut self, parsed: Option<Ratio>)
        ensures
            final(self)@ == (SettingsModel {
                ratio: RatioModel::Known(resolved_ratio(old(self)@.ratio, parsed)),
                ..old(self)@
            }),
    {
        let r = self.downscale_ratio_per_pix.resolve(parsed);
        self.downscale_ratio_per_pix = RatioSetting::Known(r);
    }
}

/// Applies one `key=value` entry to the settings.
pub fn apply_setting(settings: &mut Settings, key: &str, value: &str, fallback: Ratio)
    ensures
        final(settings)@ == with_setting(old(settings)@, key@, value@, fallback),
{
    if same_text(key, "img") {
        settings.image_file = value.to_owned();
    } else if same_text(key, "downscale_ratio") {
        settings.downscale_ratio_per_pix = RatioSetting::Unread { text: value.to_owned(), fallback };
    } else if same_text(key, "gif_loop") {
        if same_text(value, "true") {
            settings.gif_loop = true;
        } else if same_text(value, "false") {
            settings.gif_loop = false;
        }
    }
}

/// Applies the lines of a configuration text, up to the first line that holds
/// no `=`.
pub fn parse_file(settings: &mut Settings, lines: &Vec<String>)
    ensures
        final(settings)@ == with_config(old(settings)@, texts(lines@)),
{
    let ghost all = texts(lines@);
    let n: usize = lines.len();
    let mut i: usize = 0;
    assert(all.subrange(0, n as int) =~= all);
    while i < n
        invariant
            i <= n,
            n == lines@.len(),
            all == texts(lines@),
            with_config(settings@, all.subrange(i as int, n as int)) == with_config(
                old(settings)@,
                all,
            ),
        decreases n - i,
    {
        let ghost rest = all.subrange(i as int, n as int);
        assert(rest[0] == lines@[i as int]@);
        assert(rest.drop_first() =~= all.subrange(i + 1, n as int));
        match split_entry(lines[i].as_str()) {
            Some((key, value)) => {
                apply_setting(settings, key, value, Ratio::one_and_a_half());
            },
            None => {
                return ;
            },
        }
        i += 1;
    }
}

/// Lists the value of every `downscale_ratio` line that `parse_file` applies,
/// in order, so that each can be read as a number and reported if it is none.
pub fn ratio_texts_in_config(lines: &Vec<String>) -> (found: Vec<String>)
    ensures
        texts(found@) == config_ratio_texts(texts(lines@)),
{
    let ghost all = texts(lines@);
    let n: usize = lines.len();
    let mut found: Vec<String> = Vec::new();
    let mut i: usize = 0;
    assert(all.subrange(0, n as int) =~= all);
    assert(texts(found@) + config_ratio_texts(all) =~= config_ratio_texts(all));
    while i < n
        invariant
            i <= n,
            n == lines@.len(),
            all == texts(lines@),
            texts(found@) + config_ratio_texts(all.subrange(i as int, n as int))
                == config_ratio_texts(all),
        decreases n - i,
    {
        let ghost rest = all.subrange(i as int, n as int);
        let ghost before = texts(found@);
        assert(rest[0] == lines@[i as int]@);
        assert(rest.drop_first() =~= all.subrange(i + 1, n as int));
        match split_entry(lines[i].as_str()) {
            Some((key, value)) => {
                if same_text(key, "downscale_ratio") {
                    found.push(value.to_owned());
                    assert(texts(found@) =~= before + seq![value@]);
                    assert(texts(found@) + config_ratio_texts(rest.drop_first()) =~= before + (
                    seq![value@] + config_ratio_texts(rest.drop_first())));
                }
            },
            None => {
                assert(texts(found@) + Seq::<Seq<char>>::empty() =~= texts(found@));
                return found;
            },
        }
        i += 1;
    }
    assert(texts(found@) + Seq::<Seq<char>>::empty() =~= texts(found@));
    found
}

/// Lists the value of every `downscale_ratio` option that `parse_options`
/// applies, in order.
pub fn ratio_texts_in_options(args: &Vec<String>, from: usize) -> (found: Vec<String>)
    requires
        from <= args@.len(),
    ensures
        texts(found@) == option_ratio_texts(
            texts(args@).subrange(from as int, args@.len() as int),
        ),
{
    let ghost all = texts(args@);
    let n: usize = args.len();
    let mut found: Vec<String> = Vec::new();
    let mut i: usize = from;
    assert(texts(found@) + option_ratio_texts(all.subrange(from as int, n as int))
        =~= option_ratio_texts(all.subrange(from as int, n as int)));
    while i < n
        invariant
            from <= i <= n,
            n == args@.len(),
            all == texts(args@),
            texts(found@) + option_ratio_texts(all.subrange(i as int, n as int))
                == option_ratio_texts(all.subrange(from as int, n as int)),
        decreases n - i,
    {
        let ghost rest = all.subrange(i as int, n as int);
        let ghost before = texts(found@);
        assert(rest[0] == args@[i as int]@);
        assert(rest.drop_first() =~= all.subrange(i + 1, n as int));
        match split_entry(args[i].as_str()) {
            Some((key, value)) => {
                if same_text(key, "downscale_ratio") {
                    found.push(value.to_owned());
                    assert(texts(found@) =~= before + seq![value@]);
                    assert(texts(found@) + option_ratio_texts(rest.drop_first()) =~= before + (
                    seq![value@] + option_ratio_texts(rest.drop_first())));
                }
            },
            None => {},
        }
        i += 1;
    }
    assert(texts(found@) + Seq::<Seq<char>>::empty() =~= texts(found@));
    found
}

/// Lists the value of every `downscale_ratio` option that `parse_args`
/// applies, in order.
pub fn ratio_texts_in_args(args: &Vec<String>) -> (found: Vec<String>)
    ensures
        texts(found@) == argument_ratio_texts(texts(args@)),
{
    if args.len() < 2 {
        return Vec::new();
    }
    let first = args[1].as_str();
    assert(texts(args@)[1] == first@);
    if same_text(first, "-v") || same_text(first, "--version") {
        return Vec::new();
    }
    ratio_texts_in_options(args, 2)
}

/// Applies `key=value` arguments, passing over those that hold no `=`.
pub fn parse_options(settings: &mut Settings, args: &Vec<String>, from: usize)
    requires
        from <= args@.len(),
    ensures
        final(settings)@ == with_options(
            old(settings)@,
            texts(args@).subrange(from as int, args@.len() as int),
        ),
{
    let ghost all = texts(args@);
    let n: usize = args.len();
    let mut i: usize = from;
    while i < n
        invariant
            from <= i <= n,
            n == args@.len(),
            all == texts(args@),
            with_options(settings@, all.subrange(i as int, n as int)) == with_options(
                old(settings)@,
                all.subrange(from as int, n as int),
            ),
        decreases n - i,
    {
        let ghost rest = all.subrange(i as int, n as int);
        assert(rest[0] == args@[i as int]@);
        assert(rest.drop_first() =~= all.subrange(i + 1, n as int));
        match split_entry(args[i].as_str()) {
            Some((key, value)) => {
                apply_setting(settings, key, value, Ratio::two());
            },
            None => {},
        }
        i += 1;
    }
}

/// Applies a command line `program [imagefile] [key=value ...]`. Where it asks
/// for the version the settings are left alone and the caller is told to
/// report it.
pub fn parse_args(settings: &mut Settings, args: &Vec<String>) -> (outcome: ArgsOutcome)
    ensures
        outcome == ArgsOutcome::ShowVersion <==> wants_version(texts(args@)),
        final(settings)@ == with_arguments(old(settings)@, texts(args@)),
{
    if args.len() < 2 {
        return ArgsOutcome::Proceed;
    }
    let first = args[1].as_str();
    assert(texts(args@)[1] == first@);
    if same_text(first, "-v") || same_text(first, "--version") {
        return ArgsOutcome::ShowVersion;
    }
    if !same_text(first, " ") {
        settings.image_file = first.to_owned();
    }
    parse_options(settings, args, 2);
    ArgsOutcome::Proceed
}

} // verus!
