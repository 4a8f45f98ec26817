use synly::mapping::InputPlatform;
use synly::platform::ScrollSource;
use synly::scroll::{
    transform_scroll, wheel_axis_to_notch, windows_notch_to_macos_line, ScrollTransformer,
};

fn transformer(
    native_macos_to_windows: bool,
    native_windows_to_macos: bool,
) -> ScrollTransformer {
    ScrollTransformer::new(native_macos_to_windows, native_windows_to_macos)
}

#[test]
fn disabled_native_scroll_keeps_old_behavior() {
    let transformer = transformer(false, false);
    assert_eq!(
        transformer.transform(
            4,
            -7,
            ScrollSource::Trackpad,
            InputPlatform::Macos,
            InputPlatform::Windows,
            false,
            false,
        ),
        (-4, -7)
    );
    assert_eq!(
        transformer.transform(
            4,
            -7,
            ScrollSource::MouseWheel,
            InputPlatform::Windows,
            InputPlatform::Macos,
            true,
            false,
        ),
        (4, 7)
    );
}

#[test]
fn native_scroll_keeps_trackpad_unchanged() {
    let transformer = transformer(true, true);
    assert_eq!(
        transformer.transform(
            48,
            480,
            ScrollSource::Trackpad,
            InputPlatform::Macos,
            InputPlatform::Windows,
            false,
            false,
        ),
        (-48, 480)
    );
    assert_eq!(
        transformer.transform(
            3,
            2,
            ScrollSource::Trackpad,
            InputPlatform::Windows,
            InputPlatform::Macos,
            false,
            false,
        ),
        (-3, 2)
    );
}

#[test]
fn mouse_wheel_to_windows_uses_event_count_not_accelerated_magnitude() {
    let transformer = transformer(true, false);
    assert_eq!(
        transformer.transform(
            0,
            9,
            ScrollSource::MouseWheel,
            InputPlatform::Macos,
            InputPlatform::Windows,
            false,
            false,
        ),
        (0, 1)
    );
    assert_eq!(
        transformer.transform(
            0,
            -9,
            ScrollSource::MouseWheel,
            InputPlatform::Macos,
            InputPlatform::Windows,
            false,
            false,
        ),
        (0, -1)
    );
}

#[test]
fn windows_notches_apply_fixed_curve_to_macos_lines() {
    let transformer = transformer(false, true);
    assert_eq!(
        transformer.transform(
            1,
            1,
            ScrollSource::MouseWheel,
            InputPlatform::Windows,
            InputPlatform::Macos,
            false,
            false,
        ),
        (-1, 1)
    );
    assert_eq!(
        transformer.transform(
            2,
            2,
            ScrollSource::MouseWheel,
            InputPlatform::Windows,
            InputPlatform::Macos,
            false,
            false,
        ),
        (-3, 3)
    );
}

#[test]
fn native_conversion_runs_before_reverse() {
    let transformer = transformer(true, false);
    assert_eq!(
        transformer.transform(
            48,
            48,
            ScrollSource::MouseWheel,
            InputPlatform::Macos,
            InputPlatform::Windows,
            true,
            false,
        ),
        (1, -1)
    );
}

#[test]
fn scroll_reversal_is_selected_by_source() {
    assert_eq!(
        transform_scroll(
            4,
            -7,
            ScrollSource::MouseWheel,
            InputPlatform::Macos,
            InputPlatform::Macos,
            true,
            false,
        ),
        (-4, 7)
    );
    assert_eq!(
        transform_scroll(
            4,
            -7,
            ScrollSource::Trackpad,
            InputPlatform::Macos,
            InputPlatform::Macos,
            true,
            false,
        ),
        (4, -7)
    );
    assert_eq!(
        transform_scroll(
            i32::MIN,
            i32::MAX,
            ScrollSource::Trackpad,
            InputPlatform::Macos,
            InputPlatform::Macos,
            false,
            true,
        ),
        (i32::MAX, -i32::MAX)
    );
}

#[test]
fn cross_platform_scroll_flips_only_horizontal_axis() {
    let cases = [
        (InputPlatform::Macos, InputPlatform::Macos, (4, -7)),
        (InputPlatform::Macos, InputPlatform::Windows, (-4, -7)),
        (InputPlatform::Windows, InputPlatform::Macos, (-4, -7)),
        (InputPlatform::Windows, InputPlatform::Windows, (4, -7)),
    ];
    for (local, remote, expected) in cases {
        assert_eq!(
            transform_scroll(4, -7, ScrollSource::Trackpad, local, remote, false, false),
            expected
        );
    }
}

#[test]
fn conversions_keep_the_direction() {
    assert_eq!(wheel_axis_to_notch(0), 0);
    assert_eq!(wheel_axis_to_notch(120), 1);
    assert_eq!(wheel_axis_to_notch(-1), -1);
    assert_eq!(windows_notch_to_macos_line(0), 0);
    for notches in 1..20 {
        assert!(windows_notch_to_macos_line(notches) > 0);
        assert!(windows_notch_to_macos_line(-notches) < 0);
    }
}
