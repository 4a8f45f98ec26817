//! Scroll amounts: native conversion between platforms, axis direction, reversal.

use crate::mapping::InputPlatform;
use crate::numeric;
use crate::platform::ScrollSource;
use vstd::prelude::*;

verus! {

/// Minus one, zero or one.
pub open spec fn sign(v: int) -> int {
    if v < 0 {
        -1
    } else if v > 0 {
        1
    } else {
        0
    }
}

pub open spec fn magnitude(v: int) -> int {
    if v < 0 {
        -v
    } else {
        v
    }
}

/// `v * numerator / denominator`, rounded to the nearest whole number, halves away from zero.
pub open spec fn scaled(v: int, numerator: int, denominator: int) -> int {
    sign(v) * ((2 * magnitude(v) * numerator + denominator) / (2 * denominator))
}

/// The lines that macOS scrolls for some notches of a Windows wheel: as many for a single
/// notch, a quarter more for two to four, half as many more from five on.
pub open spec fn lines_for_notches(notches: int) -> int {
    numeric::saturate(
        if magnitude(notches) <= 1 {
            notches
        } else if magnitude(notches) <= 4 {
            scaled(notches, 5, 4)
        } else {
            scaled(notches, 3, 2)
        },
    )
}

/// A scroll amount with the native conversion of the wheel applied, where it is switched on.
pub open spec fn natively_converted(
    transformer: ScrollTransformer,
    v: int,
    source: ScrollSource,
    local: InputPlatform,
    remote: InputPlatform,
) -> int {
    if source is MouseWheel && local is Macos && remote is Windows
        && transformer.native_macos_to_windows {
        sign(v)
    } else if source is MouseWheel && local is Windows && remote is Macos
        && transformer.native_windows_to_macos {
        lines_for_notches(v)
    } else {
        v
    }
}

/// A scroll amount as the other platform wants it: the horizontal one counts the other way
/// where the platforms differ, and both do where reversal is asked for.
pub open spec fn directed(
    x: int,
    y: int,
    source: ScrollSource,
    local: InputPlatform,
    remote: InputPlatform,
    reverse_mouse_wheel: bool,
    reverse_trackpad: bool,
) -> (int, int) {
    let flipped = if local == remote {
        x
    } else {
        numeric::saturate(-x)
    };
    let reverse = if source is MouseWheel {
        reverse_mouse_wheel
    } else {
        reverse_trackpad
    };
    if reverse {
        (numeric::saturate(-flipped), numeric::saturate(-y))
    } else {
        (flipped, y)
    }
}

/// Turns wheel notches of one platform into native scrolling of the other. Trackpads are left
/// as they are.
#[derive(Clone, Copy, Debug, PartialEq, Eq, Structural)]
pub struct ScrollTransformer {
    pub native_macos_to_windows: bool,
    pub native_windows_to_macos: bool,
}

impl ScrollTransformer {
    pub fn new(native_macos_to_windows: bool, native_windows_to_macos: bool) -> (r: Self)
        ensures
            r == (ScrollTransformer { native_macos_to_windows, native_windows_to_macos }),
    {
        ScrollTransformer { native_macos_to_windows, native_windows_to_macos }
    }

    pub fn transform(
        &self,
        x: i32,
        y: i32,
        source: ScrollSource,
        local_platform: InputPlatform,
        remote_platform: InputPlatform,
        reverse_mouse_wheel: bool,
        reverse_trackpad: bool,
    ) -> (r: (i32, i32))
        ensures
            (r.0 as int, r.1 as int) == directed(
                natively_converted(*self, x as int, source, local_platform, remote_platform),
                natively_converted(*self, y as int, source, local_platform, remote_platform),
                source,
                local_platform,
                remote_platform,
                reverse_mouse_wheel,
                reverse_trackpad,
            ),
    {
        let (x, y) = self.native_transform(x, y, source, local_platform, remote_platform);
        transform_scroll(
            x,
            y,
            source,
            local_platform,
            remote_platform,
            reverse_mouse_wheel,
            reverse_trackpad,
        )
    }

    pub fn native_transform(
        &self,
        x: i32,
        y: i32,
        source: ScrollSource,
        local_platform: InputPlatform,
        remote_platform: InputPlatform,
    ) -> (r: (i32, i32))
        ensures
            r.0 == natively_converted(*self, x as int, source, local_platform, remote_platform),
            r.1 == natively_converted(*self, y as int, source, local_platform, remote_platform),
    {
        match (local_platform, remote_platform, source) {
            (InputPlatform::Macos, InputPlatform::Windows, ScrollSource::MouseWheel) => {
                if self.native_macos_to_windows {
                    (wheel_axis_to_notch(x), wheel_axis_to_notch(y))
                } else {
                    (x, y)
                }
            },
            (InputPlatform::Windows, InputPlatform::Macos, ScrollSource::MouseWheel) => {
                if self.native_windows_to_macos {
                    (windows_notch_to_macos_line(x), windows_notch_to_macos_line(y))
                } else {
                    (x, y)
                }
            },
            _ => (x, y),
        }
    }
}

/// One notch in the direction of the scroll.
pub fn wheel_axis_to_notch(delta: i32) -> (r: i32)
    ensures
        r == sign(delta as int),
{
    if delta < 0 {
        -1
    } else if delta > 0 {
        1
    } else {
        0
    }
}

/// The lines that macOS scrolls for some notches of a Windows wheel.
pub fn windows_notch_to_macos_line(delta: i32) -> (r: i32)
    ensures
        r == lines_for_notches(delta as int),
{
    let wide: i64 = delta as i64;
    let size: i64 = if wide < 0 {
        -wide
    } else {
        wide
    };
    let lines: i64 = if size <= 1 {
        size
    } else if size <= 4 {
        (10 * size + 4) / 8
    } else {
        (6 * size + 2) / 4
    };
    numeric::clamp_wide(
        if wide < 0 {
            -lines
        } else {
            lines
        },
    )
}

/// A scroll amount as the other platform wants it, without native conversion.
pub fn transform_scroll(
    x: i32,
    y: i32,
    source: ScrollSource,
    local_platform: InputPlatform,
    remote_platform: InputPlatform,
    reverse_mouse_wheel: bool,
    reverse_trackpad: bool,
) -> (r: (i32, i32))
    ensures
        (r.0 as int, r.1 as int) == directed(
            x as int,
            y as int,
            source,
            local_platform,
            remote_platform,
            reverse_mouse_wheel,
            reverse_trackpad,
        ),
{
    let flipped: i32 = if local_platform == remote_platform {
        x
    } else {
        numeric::saturating_negation(x)
    };
    let reverse = match source {
        ScrollSource::MouseWheel => reverse_mouse_wheel,
        ScrollSource::Trackpad => reverse_trackpad,
    };
    if reverse {
        (numeric::saturating_negation(flipped), numeric::saturating_negation(y))
    } else {
        (flipped, y)
    }
}

/// Native conversion never touches a trackpad.
pub proof fn trackpad_is_not_converted(
    transformer: ScrollTransformer,
    v: int,
    local: InputPlatform,
    remote: InputPlatform,
)
    ensures
        natively_converted(transformer, v, ScrollSource::Trackpad, local, remote) == v,
{
}

/// Conversion keeps the direction of the scroll, and no notch is lost on the way to lines.
pub proof fn conversion_keeps_direction(v: int)
    requires
        i32::MIN <= v <= i32::MAX,
    ensures
        sign(lines_for_notches(v)) == sign(v),
        magnitude(lines_for_notches(v)) >= magnitude(v),
{
    let m = magnitude(v);
    assert(sign(v) * ((10 * m + 4) / 8) == if v < 0 { -((10 * m + 4) / 8) } else if v > 0 { (10 * m
        + 4) / 8 } else { 0 }) by (nonlinear_arith)
        requires
            m == magnitude(v),
    ;
    assert(sign(v) * ((6 * m + 2) / 4) == if v < 0 { -((6 * m + 2) / 4) } else if v > 0 { (6 * m
        + 2) / 4 } else { 0 }) by (nonlinear_arith)
        requires
            m == magnitude(v),
    ;
}

/// A scroll amount of 32 bits keeps to 32 bits when it is converted.
pub proof fn converted_amounts_fit(
    transformer: ScrollTransformer,
    v: int,
    source: ScrollSource,
    local: InputPlatform,
    remote: InputPlatform,
)
    requires
        i32::MIN <= v <= i32::MAX,
    ensures
        i32::MIN <= natively_converted(transformer, v, source, local, remote) <= i32::MAX,
{
}

/// Whether one amount is the other in the opposite direction. The lowest one has only the
/// highest one to answer it.
pub open spec fn opposes(a: int, b: int) -> bool {
    b == -a || (a == i32::MIN && b == i32::MAX)
}

/// Whatever the platforms are, switching on the reversal of a device turns both amounts of that
/// device round, and leaves the other device alone.
pub proof fn reversal_turns_its_device_round(
    x: i32,
    y: i32,
    local: InputPlatform,
    remote: InputPlatform,
    other: bool,
)
    ensures
        ({
            let wheel = |on: bool|
                directed(x as int, y as int, ScrollSource::MouseWheel, local, remote, on, other);
            &&& opposes(wheel(false).0, wheel(true).0)
            &&& opposes(wheel(false).1, wheel(true).1)
        }),
        ({
            let trackpad = |on: bool|
                directed(x as int, y as int, ScrollSource::Trackpad, local, remote, other, on);
            &&& opposes(trackpad(false).0, trackpad(true).0)
            &&& opposes(trackpad(false).1, trackpad(true).1)
        }),
        forall|on: bool|
            #![trigger directed(x as int, y as int, ScrollSource::MouseWheel, local, remote, on, true)]
            directed(x as int, y as int, ScrollSource::MouseWheel, local, remote, on, true)
                == directed(
                x as int,
                y as int,
                ScrollSource::MouseWheel,
                local,
                remote,
                on,
                false,
            ),
        forall|on: bool|
            #![trigger directed(x as int, y as int, ScrollSource::Trackpad, local, remote, true, on)]
            directed(x as int, y as int, ScrollSource::Trackpad, local, remote, true, on)
                == directed(
                x as int,
                y as int,
                ScrollSource::Trackpad,
                local,
                remote,
                false,
                on,
            ),
{
}

/// Without reversal, the vertical amount is the same everywhere, and the horizontal one turns
/// round exactly between different platforms.
pub proof fn only_the_horizontal_axis_depends_on_the_platforms(
    x: i32,
    y: i32,
    source: ScrollSource,
    local: InputPlatform,
    remote: InputPlatform,
)
    ensures
        ({
            let (rx, ry) = directed(x as int, y as int, source, local, remote, false, false);
            &&& ry == y
            &&& local is Macos && remote is Macos ==> rx == x
            &&& local is Windows && remote is Windows ==> rx == x
            &&& local is Macos && remote is Windows ==> opposes(x as int, rx)
            &&& local is Windows && remote is Macos ==> opposes(x as int, rx)
        }),
{
}

/// Native conversion is for the wheel alone, in the direction that it is switched on for, and
/// leaves everything else as it is.
pub proof fn conversion_is_for_the_wheel_where_it_is_on(
    transformer: ScrollTransformer,
    v: i32,
    source: ScrollSource,
    local: InputPlatform,
    remote: InputPlatform,
)
    ensures
        natively_converted(transformer, v as int, source, local, remote) != v ==> {
            &&& source is MouseWheel
            &&& local is Macos ==> remote is Windows && transformer.native_macos_to_windows
            &&& local is Windows ==> remote is Macos && transformer.native_windows_to_macos
        },
{
}

/// On the way from macOS to Windows, a wheel movement of any size is one notch in its
/// direction.
pub proof fn movement_becomes_one_notch(transformer: ScrollTransformer, v: i32)
    requires
        transformer.native_macos_to_windows,
    ensures
        ({
            let notch = natively_converted(
                transformer,
                v as int,
                ScrollSource::MouseWheel,
                InputPlatform::Macos,
                InputPlatform::Windows,
            );
            &&& v > 0 ==> notch == 1
            &&& v < 0 ==> notch == -1
            &&& v == 0 ==> notch == 0
        }),
{
}

/// On the way from Windows to macOS, notches become lines: one for one, five for four from two
/// to four notches, three for two from five on, each time the nearest number of lines and halves
/// away from zero. Up and down are treated alike.
pub proof fn notches_become_lines(transformer: ScrollTransformer, v: i32)
    requires
        transformer.native_windows_to_macos,
    ensures
        ({
            let lines = |notches: int|
                natively_converted(
                    transformer,
                    notches,
                    ScrollSource::MouseWheel,
                    InputPlatform::Windows,
                    InputPlatform::Macos,
                );
            &&& -1 <= v <= 1 ==> lines(v as int) == v
            &&& 2 <= v <= 4 ==> -2 < 4 * lines(v as int) - 5 * v <= 2
            &&& 5 <= v && 3 * v < 2 * i32::MAX ==> -1 < 2 * lines(v as int) - 3 * v <= 1
            &&& 3 * v >= 2 * i32::MAX ==> lines(v as int) == i32::MAX
            &&& v > i32::MIN ==> lines(-v) == -lines(v as int) || (lines(v as int) == i32::MAX
                && lines(-v) == i32::MIN) || (lines(v as int) == i32::MIN && lines(-v) == i32::MAX)
        }),
{
    let m = magnitude(v as int);
    lemma_signed(v as int, (10 * m + 4) / 8);
    lemma_signed(v as int, (6 * m + 2) / 4);
    lemma_signed(-v, (10 * m + 4) / 8);
    lemma_signed(-v, (6 * m + 2) / 4);
}

proof fn lemma_signed(v: int, n: int)
    ensures
        v > 0 ==> sign(v) * n == n,
        v < 0 ==> sign(v) * n == -n,
        v == 0 ==> sign(v) * n == 0,
{
    assert(1 * n == n && -1 * n == -n && 0 * n == 0) by (nonlinear_arith);
}

} // verus!
