use image_viewer::ratio::{Ratio, ONE_AND_A_HALF_BITS, TWO_BITS};
use image_viewer::settings::{
    apply_setting, parse_args, parse_file, parse_options, ratio_texts_in_args,
    ratio_texts_in_config, ratio_texts_in_options, ArgsOutcome, RatioSetting, Settings, VERSION,
};

fn strings(items: &[&str]) -> Vec<String> {
    items.iter().map(|s| s.to_string()).collect()
}

fn unread(text: &str, fallback_bits: u32) -> RatioSetting {
    RatioSetting::Unread { text: text.to_string(), fallback: Ratio::from_bits(fallback_bits) }
}

fn read_number(text: &str) -> Option<Ratio> {
    text.parse::<f32>().ok().map(|v| Ratio::from_bits(v.to_bits()))
}

#[test]
fn version_is_reported_as_released() {
    assert_eq!(VERSION, "2.1.1");
}

#[test]
fn settings_start_from_defaults() {
    let s = Settings::new();
    assert_eq!(s.image_file, "");
    assert_eq!(s.downscale_ratio_per_pix, RatioSetting::Known(Ratio::from_bits(TWO_BITS)));
    assert_eq!(s.downscale_ratio_per_pix.resolve(None).to_bits(), 2.0f32.to_bits());
    assert!(!s.gif_loop);
}

#[test]
fn config_sets_each_recognized_key() {
    let mut s = Settings::new();
    parse_file(&mut s, &strings(&["img=cat.png", "downscale_ratio=3", "gif_loop=true"]));
    assert_eq!(s.image_file, "cat.png");
    assert_eq!(s.downscale_ratio_per_pix, unread("3", ONE_AND_A_HALF_BITS));
    assert!(s.gif_loop);
}

#[test]
fn config_of_no_lines_changes_nothing() {
    let mut s = Settings::new();
    parse_file(&mut s, &strings(&[]));
    assert_eq!(s, Settings::new());
}

#[test]
fn config_stops_at_the_first_line_without_equals() {
    let mut s = Settings::new();
    parse_file(&mut s, &strings(&["img=a.png", "this line is a comment", "img=b.png", "gif_loop=true"]));
    assert_eq!(s.image_file, "a.png");
    assert!(!s.gif_loop);
}

#[test]
fn config_stops_at_an_empty_line() {
    let mut s = Settings::new();
    parse_file(&mut s, &strings(&["", "img=b.png"]));
    assert_eq!(s, Settings::new());
}

#[test]
fn config_ignores_unknown_keys_and_goes_on() {
    let mut s = Settings::new();
    parse_file(&mut s, &strings(&["colour=red", "symbol=#", "img=a.png"]));
    assert_eq!(s.image_file, "a.png");
    assert_eq!(s.downscale_ratio_per_pix, RatioSetting::Known(Ratio::from_bits(TWO_BITS)));
    assert!(!s.gif_loop);
}

#[test]
fn keys_are_matched_exactly() {
    let mut s = Settings::new();
    parse_file(&mut s, &strings(&["IMG=a.png", " img=b.png", "img =c.png", "gif_loop =true"]));
    assert_eq!(s, Settings::new());
}

#[test]
fn last_occurrence_of_a_key_wins() {
    let mut s = Settings::new();
    parse_file(
        &mut s,
        &strings(&["img=a.png", "gif_loop=true", "img=b.png", "gif_loop=false", "downscale_ratio=1", "downscale_ratio=4"]),
    );
    assert_eq!(s.image_file, "b.png");
    assert!(!s.gif_loop);
    assert_eq!(s.downscale_ratio_per_pix, unread("4", ONE_AND_A_HALF_BITS));
}

#[test]
fn value_is_everything_after_the_first_equals() {
    let mut s = Settings::new();
    parse_file(&mut s, &strings(&["img=a=b=c.png"]));
    assert_eq!(s.image_file, "a=b=c.png");
    parse_file(&mut s, &strings(&["img="]));
    assert_eq!(s.image_file, "");
}

#[test]
fn key_may_be_empty_and_is_then_unknown() {
    let mut s = Settings::new();
    parse_file(&mut s, &strings(&["=value", "gif_loop=true"]));
    assert_eq!(s.image_file, "");
    assert!(s.gif_loop);
}

#[test]
fn non_ascii_text_is_split_by_characters() {
    let mut s = Settings::new();
    parse_file(&mut s, &strings(&["img=бобёр/猫.png", "ключ=значение", "gif_loop=true"]));
    assert_eq!(s.image_file, "бобёр/猫.png");
    assert!(s.gif_loop);
}

#[test]
fn unrecognized_loop_value_leaves_the_flag_as_it_was() {
    for value in ["yes", "TRUE", "True", "1", "", " true", "true ", "falsee", "0"] {
        let mut off = Settings::new();
        parse_file(&mut off, &strings(&[&format!("gif_loop={}", value)]));
        assert!(!off.gif_loop, "value {:?}", value);
        assert_eq!(off, Settings::new());

        let mut on = Settings::new();
        on.gif_loop = true;
        parse_file(&mut on, &strings(&[&format!("gif_loop={}", value)]));
        assert!(on.gif_loop, "value {:?}", value);

        let mut by_arg = Settings::new();
        by_arg.gif_loop = true;
        parse_options(&mut by_arg, &strings(&[&format!("gif_loop={}", value)]), 0);
        assert!(by_arg.gif_loop, "value {:?}", value);
    }
}

#[test]
fn recognized_loop_values_set_the_flag() {
    let mut s = Settings::new();
    apply_setting(&mut s, "gif_loop", "true", Ratio::two());
    assert!(s.gif_loop);
    apply_setting(&mut s, "gif_loop", "false", Ratio::two());
    assert!(!s.gif_loop);
}

#[test]
fn apply_setting_keeps_the_fallback_it_is_given() {
    let mut s = Settings::new();
    apply_setting(&mut s, "downscale_ratio", "x", Ratio::from_bits(7));
    assert_eq!(s.downscale_ratio_per_pix, unread("x", 7));
    assert_eq!(s.image_file, "");
    assert!(!s.gif_loop);
}

#[test]
fn ratio_text_resolves_to_the_number_it_reads_as() {
    for text in ["3", "2.5", "0.1", "1e3", "+4", ".5", "1e-30", "0", "-1", "inf", "NaN"] {
        let mut s = Settings::new();
        parse_file(&mut s, &strings(&[&format!("downscale_ratio={}", text)]));
        let pending = s.downscale_ratio_per_pix.pending_text();
        assert_eq!(pending.as_deref(), Some(text));
        let parsed = read_number(&pending.unwrap());
        assert!(parsed.is_some(), "text {:?}", text);
        let expected = text.parse::<f32>().unwrap().to_bits();
        assert_eq!(s.downscale_ratio_per_pix.resolve(parsed).to_bits(), expected);
        s.settle_ratio(parsed);
        assert_eq!(s.downscale_ratio_per_pix, RatioSetting::Known(Ratio::from_bits(expected)));
    }
}

#[test]
fn unreadable_ratio_in_config_falls_back_to_one_and_a_half() {
    for text in ["abc", "", "1,5", "2x", " 2", "0x10"] {
        let mut s = Settings::new();
        parse_file(&mut s, &strings(&[&format!("downscale_ratio={}", text)]));
        let pending = s.downscale_ratio_per_pix.pending_text().unwrap();
        let parsed = read_number(&pending);
        assert!(parsed.is_none(), "text {:?}", text);
        assert_eq!(s.downscale_ratio_per_pix.resolve(parsed).to_bits(), 1.5f32.to_bits());
        s.settle_ratio(parsed);
        assert_eq!(
            s.downscale_ratio_per_pix,
            RatioSetting::Known(Ratio::from_bits(ONE_AND_A_HALF_BITS))
        );
    }
}

#[test]
fn unreadable_ratio_in_arguments_falls_back_to_two() {
    let mut s = Settings::new();
    let outcome = parse_args(&mut s, &strings(&["viewer", "a.png", "downscale_ratio=many"]));
    assert_eq!(outcome, ArgsOutcome::Proceed);
    assert_eq!(s.downscale_ratio_per_pix, unread("many", TWO_BITS));
    assert_eq!(s.downscale_ratio_per_pix.resolve(None).to_bits(), 2.0f32.to_bits());
}

#[test]
fn known_ratio_has_no_pending_text_and_resolves_to_itself() {
    let known = RatioSetting::Known(Ratio::from_bits(12345));
    assert_eq!(known.pending_text(), None);
    assert_eq!(known.resolve(None).to_bits(), 12345);
    assert_eq!(known.resolve(Some(Ratio::from_bits(1))).to_bits(), 12345);
}

#[test]
fn settling_changes_only_the_ratio() {
    let mut s = Settings::new();
    parse_file(&mut s, &strings(&["img=a.gif", "gif_loop=true", "downscale_ratio=4"]));
    s.settle_ratio(read_number("4"));
    assert_eq!(s.image_file, "a.gif");
    assert!(s.gif_loop);
    assert_eq!(s.downscale_ratio_per_pix, RatioSetting::Known(Ratio::from_bits(4.0f32.to_bits())));
}

#[test]
fn arguments_without_a_first_argument_change_nothing() {
    let mut s = Settings::new();
    assert_eq!(parse_args(&mut s, &strings(&[])), ArgsOutcome::Proceed);
    assert_eq!(s, Settings::new());
    assert_eq!(parse_args(&mut s, &strings(&["viewer"])), ArgsOutcome::Proceed);
    assert_eq!(s, Settings::new());
}

#[test]
fn first_argument_is_the_image() {
    let mut s = Settings::new();
    assert_eq!(parse_args(&mut s, &strings(&["viewer", "cat.png"])), ArgsOutcome::Proceed);
    assert_eq!(s.image_file, "cat.png");
}

#[test]
fn first_argument_is_the_image_even_if_it_reads_as_an_option() {
    let mut s = Settings::new();
    parse_args(&mut s, &strings(&["viewer", "gif_loop=true"]));
    assert_eq!(s.image_file, "gif_loop=true");
    assert!(!s.gif_loop);
}

#[test]
fn version_flags_leave_the_settings_alone() {
    for flag in ["-v", "--version"] {
        let mut s = Settings::new();
        s.image_file = "kept.png".to_string();
        let outcome = parse_args(&mut s, &strings(&["viewer", flag, "img=other.png", "gif_loop=true"]));
        assert_eq!(outcome, ArgsOutcome::ShowVersion);
        assert_eq!(s.image_file, "kept.png");
        assert!(!s.gif_loop);
    }
}

#[test]
fn version_flag_counts_only_in_first_place() {
    let mut s = Settings::new();
    let outcome = parse_args(&mut s, &strings(&["viewer", "a.png", "-v", "--version"]));
    assert_eq!(outcome, ArgsOutcome::Proceed);
    assert_eq!(s.image_file, "a.png");
    let mut t = Settings::new();
    assert_eq!(parse_args(&mut t, &strings(&["-v"])), ArgsOutcome::Proceed);
    assert_eq!(parse_args(&mut t, &strings(&["viewer", "-V"])), ArgsOutcome::Proceed);
    assert_eq!(t.image_file, "-V");
}

#[test]
fn a_single_blank_in_first_place_names_no_image() {
    let mut s = Settings::new();
    s.image_file = "from_config.png".to_string();
    let outcome = parse_args(&mut s, &strings(&["viewer", " ", "gif_loop=true"]));
    assert_eq!(outcome, ArgsOutcome::Proceed);
    assert_eq!(s.image_file, "from_config.png");
    assert!(s.gif_loop);
    parse_args(&mut s, &strings(&["viewer", "  "]));
    assert_eq!(s.image_file, "  ");
}

#[test]
fn arguments_without_equals_are_passed_over() {
    let mut s = Settings::new();
    parse_args(&mut s, &strings(&["viewer", "a.png", "verbose", "gif_loop=true", "", "img=b.png"]));
    assert_eq!(s.image_file, "b.png");
    assert!(s.gif_loop);
}

#[test]
fn options_start_where_they_are_told_to() {
    let mut s = Settings::new();
    let args = strings(&["img=a.png", "img=b.png", "gif_loop=true"]);
    parse_options(&mut s, &args, 3);
    assert_eq!(s, Settings::new());
    parse_options(&mut s, &args, 2);
    assert_eq!(s.image_file, "");
    assert!(s.gif_loop);
    parse_options(&mut s, &args, 0);
    assert_eq!(s.image_file, "b.png");
}

#[test]
fn command_line_wins_over_config() {
    let mut s = Settings::new();
    parse_file(&mut s, &strings(&["img=config.png", "gif_loop=true", "downscale_ratio=3"]));
    parse_args(&mut s, &strings(&["viewer", "cli.png", "gif_loop=false", "downscale_ratio=5"]));
    assert_eq!(s.image_file, "cli.png");
    assert!(!s.gif_loop);
    assert_eq!(s.downscale_ratio_per_pix, unread("5", TWO_BITS));
}

#[test]
fn config_holds_where_the_command_line_is_silent() {
    let mut s = Settings::new();
    parse_file(&mut s, &strings(&["img=config.png", "gif_loop=true", "downscale_ratio=3"]));
    parse_args(&mut s, &strings(&["viewer", " "]));
    assert_eq!(s.image_file, "config.png");
    assert!(s.gif_loop);
    assert_eq!(s.downscale_ratio_per_pix, unread("3", ONE_AND_A_HALF_BITS));
}

#[test]
fn merging_the_same_sources_again_changes_nothing() {
    let configs: [&[&str]; 4] = [
        &[],
        &["img=a.png", "gif_loop=true"],
        &["downscale_ratio=bad", "gif_loop=maybe", "stop", "img=never.png"],
        &["img=a.png", "img=b.png", "downscale_ratio=1", "downscale_ratio=2"],
    ];
    let commands: [&[&str]; 5] = [
        &[],
        &["viewer"],
        &["viewer", "c.png", "gif_loop=false"],
        &["viewer", " ", "skip", "downscale_ratio=9", "gif_loop=perhaps"],
        &["viewer", "--version", "img=z.png"],
    ];
    for config in configs {
        for command in commands {
            let mut once = Settings::new();
            parse_file(&mut once, &strings(config));
            let first = parse_args(&mut once, &strings(command));
            let mut twice = once.clone();
            parse_file(&mut twice, &strings(config));
            let second = parse_args(&mut twice, &strings(command));
            assert_eq!(first, second);
            assert_eq!(once, twice, "config {:?}, command {:?}", config, command);
        }
    }
}

#[test]
fn items_are_reachable_from_the_crate_root() {
    let mut s = image_viewer::Settings::new();
    image_viewer::parse_file(&mut s, &strings(&["img=a.png"]));
    assert_eq!(
        image_viewer::parse_args(&mut s, &strings(&["viewer", "b.png"])),
        ArgsOutcome::Proceed
    );
    assert_eq!(s.image_file, "b.png");
    assert_eq!(image_viewer::VERSION, "2.1.1");
    assert_eq!(image_viewer::clean_exit().len(), 2);
    let one = image_viewer::picture::Picture::new(1, 1, vec![1, 2, 3, 4]).unwrap();
    assert_eq!(image_viewer::display_image(one).unwrap().len(), 3);
}

#[test]
fn every_ratio_value_of_the_config_is_listed_in_order() {
    let lines = strings(&[
        "downscale_ratio=3",
        "img=a.png",
        "downscale_ratio=oops",
        "downscale_ratio=",
        "Downscale_ratio=9",
        "downscale_ratio=1=2",
        "no more",
        "downscale_ratio=7",
    ]);
    assert_eq!(ratio_texts_in_config(&lines), strings(&["3", "oops", "", "1=2"]));
    assert_eq!(ratio_texts_in_config(&strings(&[])), strings(&[]));
    assert_eq!(ratio_texts_in_config(&strings(&["stop", "downscale_ratio=1"])), strings(&[]));
    assert_eq!(ratio_texts_in_config(&strings(&["img=a", "gif_loop=true"])), strings(&[]));
}

#[test]
fn every_ratio_value_of_the_command_line_is_listed_in_order() {
    let args = strings(&[
        "viewer",
        "downscale_ratio=first-is-the-image",
        "downscale_ratio=x",
        "plain",
        "downscale_ratio=2.5",
        "img=a.png",
    ]);
    assert_eq!(ratio_texts_in_args(&args), strings(&["x", "2.5"]));
    assert_eq!(ratio_texts_in_options(&args, 0), strings(&["first-is-the-image", "x", "2.5"]));
    assert_eq!(ratio_texts_in_options(&args, 3), strings(&["2.5"]));
    assert_eq!(ratio_texts_in_options(&args, 6), strings(&[]));
    assert_eq!(ratio_texts_in_args(&strings(&[])), strings(&[]));
    assert_eq!(ratio_texts_in_args(&strings(&["viewer"])), strings(&[]));
    assert_eq!(ratio_texts_in_args(&strings(&["viewer", "downscale_ratio=4"])), strings(&[]));
    for flag in ["-v", "--version"] {
        assert_eq!(ratio_texts_in_args(&strings(&["viewer", flag, "downscale_ratio=4"])), strings(&[]));
    }
}

#[test]
fn the_last_listed_ratio_value_is_the_one_that_holds() {
    let configs: [&[&str]; 3] = [
        &["img=a.png"],
        &["downscale_ratio=1", "gif_loop=true", "downscale_ratio=bad"],
        &["downscale_ratio=5", "end", "downscale_ratio=6"],
    ];
    let commands: [&[&str]; 3] = [
        &["viewer", "a.png"],
        &["viewer", "a.png", "downscale_ratio=x", "skip", "downscale_ratio=8"],
        &["viewer", "-v", "downscale_ratio=8"],
    ];
    for config in configs {
        for command in commands {
            let mut s = Settings::new();
            parse_file(&mut s, &strings(config));
            parse_args(&mut s, &strings(command));
            let from_config = ratio_texts_in_config(&strings(config));
            let from_command = ratio_texts_in_args(&strings(command));
            let expected = match (from_command.last(), from_config.last()) {
                (Some(text), _) => unread(text, TWO_BITS),
                (None, Some(text)) => unread(text, ONE_AND_A_HALF_BITS),
                (None, None) => RatioSetting::Known(Ratio::from_bits(TWO_BITS)),
            };
            assert_eq!(s.downscale_ratio_per_pix, expected);
        }
    }
}
