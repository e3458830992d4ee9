//! The desktop client's overlay: the notch menu at the top of the window,
//! the settings dialog, and how clicks, pointer motion and time move them.

use crate::launch::DesktopArgs;
use crate::text::{chars_of, str_eq};
use vstd::prelude::*;

verus! {

/// A rectangle on the window, in pixels: left, top, width and height.
#[derive(Debug, Clone, Copy, PartialEq, Eq, Structural)]
pub struct Rect {
    pub x: i32,
    pub y: i32,
    pub width: u32,
    pub height: u32,
}

/// The rectangle with these bounds.
pub open spec fn rect(x: int, y: int, width: int, height: int) -> Rect {
    Rect { x: x as i32, y: y as i32, width: width as u32, height: height as u32 }
}

impl Rect {
    pub fn new(x: i32, y: i32, width: u32, height: u32) -> (r: Rect)
        ensures
            r == rect(x as int, y as int, width as int, height as int),
    {
        Rect { x, y, width, height }
    }
}

/// Whether a point lies in the rectangle, its edges included.
pub open spec fn inside(mx: int, my: int, r: Rect) -> bool {
    mx >= r.x && mx <= r.x + r.width && my >= r.y && my <= r.y + r.height
}

/// Whether the point lies in the rectangle, its edges included.
pub fn is_inside(mx: i32, my: i32, rect: Rect) -> (res: bool)
    ensures
        res == inside(mx as int, my as int, rect),
{
    let right: i64 = rect.x as i64 + rect.width as i64;
    let bottom: i64 = rect.y as i64 + rect.height as i64;
    mx >= rect.x && (mx as i64) <= right && my >= rect.y && (my as i64) <= bottom
}

/// Half a window dimension, rounded toward zero as `i32` division does.
pub open spec fn half(w: int) -> int {
    if w >= 0 {
        w / 2
    } else {
        -((-w) / 2)
    }
}

fn half_of(w: i32) -> (r: i32)
    ensures
        r == half(w as int),
        i32::MIN / 2 <= r <= i32::MAX / 2,
{
    w / 2
}

/// The strip at the top centre that opens the hidden menu.
pub open spec fn trigger_rect(win_w: int) -> Rect {
    rect(half(win_w) - 25, 0, 50, 14)
}

pub fn get_trigger_rect(win_w: i32) -> (r: Rect)
    ensures
        r == trigger_rect(win_w as int),
{
    let cx = half_of(win_w);
    Rect::new(cx - 25, 0, 50, 14)
}

/// The menu pill, its top at `y_offset`.
pub open spec fn menu_rect(win_w: int, y_offset: int) -> Rect {
    rect(half(win_w) - 200, y_offset, 400, 48)
}

pub fn get_menu_rect(win_w: i32, y_offset: i32) -> (r: Rect)
    ensures
        r == menu_rect(win_w as int, y_offset as int),
{
    let cx = half_of(win_w);
    Rect::new(cx - 200, y_offset, 400, 48)
}

/// A button of the menu.
#[derive(Debug, Clone, Copy, PartialEq, Eq, Structural)]
pub enum MenuButton {
    Exit,
    Fullscreen,
    Lock,
    Stats,
    Settings,
}

impl MenuButton {
    /// The text on the button.
    pub fn label(&self) -> (res: &'static str)
        ensures
            res@ == (match *self {
                MenuButton::Exit => "Exit"@,
                MenuButton::Fullscreen => "FS"@,
                MenuButton::Lock => "Lock"@,
                MenuButton::Stats => "Stats"@,
                MenuButton::Settings => "Settings"@,
            }),
    {
        match self {
            MenuButton::Exit => "Exit",
            MenuButton::Fullscreen => "FS",
            MenuButton::Lock => "Lock",
            MenuButton::Stats => "Stats",
            MenuButton::Settings => "Settings",
        }
    }
}

/// The button in each of the menu's five slots, left to right.
pub open spec fn menu_button_order() -> Seq<MenuButton> {
    seq![
        MenuButton::Exit,
        MenuButton::Fullscreen,
        MenuButton::Lock,
        MenuButton::Stats,
        MenuButton::Settings,
    ]
}

/// The menu's buttons, each 68 by 36 pixels, 10 apart, the first 10 pixels
/// in from the pill's left edge and all 6 below its top.
pub open spec fn menu_buttons(win_w: int, y_offset: int) -> Seq<(Rect, MenuButton)> {
    Seq::new(
        5,
        |k: int| (rect(half(win_w) - 190 + 78 * k, y_offset + 6, 68, 36), menu_button_order()[k]),
    )
}

pub fn get_menu_buttons(win_w: i32, y_offset: i32) -> (res: Vec<(Rect, MenuButton)>)
    requires
        y_offset <= i32::MAX - 6,
    ensures
        res@ == menu_buttons(win_w as int, y_offset as int),
{
    let cx = half_of(win_w);
    let start_x = cx - 200 + 10;
    let top = y_offset + 6;
    let mut v: Vec<(Rect, MenuButton)> = Vec::new();
    v.push((Rect::new(start_x, top, 68, 36), MenuButton::Exit));
    v.push((Rect::new(start_x + 78, top, 68, 36), MenuButton::Fullscreen));
    v.push((Rect::new(start_x + 156, top, 68, 36), MenuButton::Lock));
    v.push((Rect::new(start_x + 234, top, 68, 36), MenuButton::Stats));
    v.push((Rect::new(start_x + 312, top, 68, 36), MenuButton::Settings));
    assert(v@ =~= menu_buttons(win_w as int, y_offset as int));
    v
}

/// Where the settings dialog's parts stand.
#[derive(Debug, Clone)]
pub struct SettingsLayout {
    pub modal_rect: Rect,
    pub res_btns: Vec<Rect>,
    pub fps_btns: Vec<Rect>,
    pub codec_btns: Vec<Rect>,
    pub bitrate_btns: Vec<Rect>,
    pub apply_btn: Rect,
    pub cancel_btn: Rect,
}

/// The resolution buttons, in the row 90 pixels above the centre.
pub open spec fn res_buttons(cx: int, cy: int) -> Seq<Rect> {
    seq![rect(cx - 60, cy - 90, 45, 22), rect(cx - 10, cy - 90, 50, 22), rect(cx + 45, cy - 90, 50, 22)]
}

/// The frame-rate buttons, in the row 40 pixels above the centre.
pub open spec fn fps_buttons(cx: int, cy: int) -> Seq<Rect> {
    seq![
        rect(cx - 60, cy - 40, 25, 22),
        rect(cx - 30, cy - 40, 25, 22),
        rect(cx, cy - 40, 35, 22),
        rect(cx + 40, cy - 40, 35, 22),
        rect(cx + 80, cy - 40, 35, 22),
    ]
}

/// The codec buttons, in the row 10 pixels below the centre.
pub open spec fn codec_buttons(cx: int, cy: int) -> Seq<Rect> {
    seq![rect(cx - 60, cy + 10, 50, 22), rect(cx - 5, cy + 10, 50, 22), rect(cx + 50, cy + 10, 35, 22)]
}

/// The bitrate buttons, in the row 60 pixels below the centre.
pub open spec fn bitrate_buttons(cx: int, cy: int) -> Seq<Rect> {
    seq![
        rect(cx - 60, cy + 60, 25, 22),
        rect(cx - 30, cy + 60, 25, 22),
        rect(cx, cy + 60, 25, 22),
        rect(cx + 30, cy + 60, 30, 22),
        rect(cx + 65, cy + 60, 30, 22),
    ]
}

pub open spec fn modal_rect(cx: int, cy: int) -> Rect {
    rect(cx - 200, cy - 160, 400, 320)
}

pub open spec fn apply_button(cx: int, cy: int) -> Rect {
    rect(cx - 150, cy + 110, 140, 30)
}

pub open spec fn cancel_button(cx: int, cy: int) -> Rect {
    rect(cx + 10, cy + 110, 140, 30)
}

/// The settings dialog, 400 by 320 pixels, centred in the window.
pub fn get_settings_layout(win_w: i32, win_h: i32) -> (res: SettingsLayout)
    ensures
        ({
            let cx = half(win_w as int);
            let cy = half(win_h as int);
            &&& res.modal_rect == modal_rect(cx, cy)
            &&& res.res_btns@ == res_buttons(cx, cy)
            &&& res.fps_btns@ == fps_buttons(cx, cy)
            &&& res.codec_btns@ == codec_buttons(cx, cy)
            &&& res.bitrate_btns@ == bitrate_buttons(cx, cy)
            &&& res.apply_btn == apply_button(cx, cy)
            &&& res.cancel_btn == cancel_button(cx, cy)
        }),
{
    let cx = half_of(win_w);
    let cy = half_of(win_h);
    let res_y = cy - 90;
    let fps_y = cy - 40;
    let codec_y = cy + 10;
    let bitrate_y = cy + 60;
    let res_btns = vec![
        Rect::new(cx - 60, res_y, 45, 22),
        Rect::new(cx - 10, res_y, 50, 22),
        Rect::new(cx + 45, res_y, 50, 22),
    ];
    let fps_btns = vec![
        Rect::new(cx - 60, fps_y, 25, 22),
        Rect::new(cx - 30, fps_y, 25, 22),
        Rect::new(cx, fps_y, 35, 22),
        Rect::new(cx + 40, fps_y, 35, 22),
        Rect::new(cx + 80, fps_y, 35, 22),
    ];
    let codec_btns = vec![
        Rect::new(cx - 60, codec_y, 50, 22),
        Rect::new(cx - 5, codec_y, 50, 22),
        Rect::new(cx + 50, codec_y, 35, 22),
    ];
    let bitrate_btns = vec![
        Rect::new(cx - 60, bitrate_y, 25, 22),
        Rect::new(cx - 30, bitrate_y, 25, 22),
        Rect::new(cx, bitrate_y, 25, 22),
        Rect::new(cx + 30, bitrate_y, 30, 22),
        Rect::new(cx + 65, bitrate_y, 30, 22),
    ];
    let layout = SettingsLayout {
        modal_rect: Rect::new(cx - 200, cy - 160, 400, 320),
        res_btns,
        fps_btns,
        codec_btns,
        bitrate_btns,
        apply_btn: Rect::new(cx - 150, cy + 110, 140, 30),
        cancel_btn: Rect::new(cx + 10, cy + 110, 140, 30),
    };
    assert(layout.res_btns@ =~= res_buttons(cx as int, cy as int));
    assert(layout.fps_btns@ =~= fps_buttons(cx as int, cy as int));
    assert(layout.codec_btns@ =~= codec_buttons(cx as int, cy as int));
    assert(layout.bitrate_btns@ =~= bitrate_buttons(cx as int, cy as int));
    layout
}

/// The resolutions the dialog offers: 720p, 1080p and 1440p.
pub open spec fn resolutions() -> Seq<(u32, u32)> {
    seq![(1280u32, 720u32), (1920u32, 1080u32), (2560u32, 1440u32)]
}

/// The frame rates the dialog offers.
pub open spec fn frame_rates() -> Seq<u32> {
    seq![60u32, 75u32, 100u32, 120u32, 240u32]
}

/// The codecs the dialog offers: H.264, H.265 and AV1.
pub open spec fn codecs() -> Seq<Seq<char>> {
    seq!["h264"@, "h265"@, "av1"@]
}

/// The bitrates the dialog offers, in kbit/s.
pub open spec fn bitrates() -> Seq<u32> {
    seq![2000u32, 4000u32, 8000u32, 16000u32, 20000u32]
}

/// The first index from `i` on at which `x` stands in `s`, or `d`.
pub open spec fn position_from<A>(s: Seq<A>, x: A, i: int, d: int) -> int
    decreases s.len() - i,
{
    if i < 0 || i >= s.len() {
        d
    } else if s[i] == x {
        i
    } else {
        position_from(s, x, i + 1, d)
    }
}

/// The option picked in each row of the settings dialog, as an index into
/// its table.
#[derive(Debug, Clone, Copy, PartialEq, Eq, Structural)]
pub struct Selection {
    pub res: usize,
    pub fps: usize,
    pub codec: usize,
    pub bitrate: usize,
}

impl Selection {
    /// Each index names an option of its row.
    pub open spec fn valid(self) -> bool {
        self.res < 3 && self.fps < 5 && self.codec < 3 && self.bitrate < 5
    }
}

/// The options that match the session's settings; one that matches none
/// shows 1080p, 60 fps, H.264 or 8 Mbit/s.
pub open spec fn initial_selection(w: u32, h: u32, fps: u32, codec: Seq<char>, bitrate: u32) -> Selection {
    Selection {
        res: position_from(resolutions(), (w, h), 0, 1) as usize,
        fps: position_from(frame_rates(), fps, 0, 0) as usize,
        codec: position_from(codecs(), codec, 0, 0) as usize,
        bitrate: position_from(bitrates(), bitrate, 0, 2) as usize,
    }
}

/// The options that match the session's settings.
pub fn select_options(args: &DesktopArgs) -> (sel: Selection)
    ensures
        sel == initial_selection(args.width, args.height, args.fps, args.codec@, args.bitrate),
        sel.valid(),
{
    proof {
        reveal_with_fuel(position_from, 6);
    }
    let (w, h) = (args.width, args.height);
    let res: usize = if w == 1280 && h == 720 {
        0
    } else if w == 1920 && h == 1080 {
        1
    } else if w == 2560 && h == 1440 {
        2
    } else {
        1
    };
    let f = args.fps;
    let fps: usize = if f == 60 {
        0
    } else if f == 75 {
        1
    } else if f == 100 {
        2
    } else if f == 120 {
        3
    } else if f == 240 {
        4
    } else {
        0
    };
    let c = args.codec.as_str();
    let codec: usize = if str_eq(c, "h264") {
        0
    } else if str_eq(c, "h265") {
        1
    } else if str_eq(c, "av1") {
        2
    } else {
        0
    };
    let b = args.bitrate;
    let bitrate: usize = if b == 2000 {
        0
    } else if b == 4000 {
        1
    } else if b == 8000 {
        2
    } else if b == 16000 {
        3
    } else if b == 20000 {
        4
    } else {
        2
    };
    Selection { res, fps, codec, bitrate }
}

/// The codec setting of a codec option.
fn codec_value(i: usize) -> (res: String)
    requires
        i < 3,
    ensures
        res@ == codecs()[i as int],
{
    if i == 0 {
        "h264".to_string()
    } else if i == 1 {
        "h265".to_string()
    } else {
        "av1".to_string()
    }
}

/// The session with the selected options in place of its resolution, frame
/// rate, codec and bitrate.
pub fn selected_args(args: &DesktopArgs, sel: Selection) -> (res: DesktopArgs)
    requires
        sel.valid(),
    ensures
        res.host_id@ == args.host_id@,
        res.server_url@ == args.server_url@,
        res.token@ == args.token@,
        (res.width, res.height) == resolutions()[sel.res as int],
        res.fps == frame_rates()[sel.fps as int],
        res.codec@ == codecs()[sel.codec as int],
        res.bitrate == bitrates()[sel.bitrate as int],
        res.app_id == args.app_id,
{
    let (width, height): (u32, u32) = if sel.res == 0 {
        (1280, 720)
    } else if sel.res == 1 {
        (1920, 1080)
    } else {
        (2560, 1440)
    };
    let fps: u32 = if sel.fps == 0 {
        60
    } else if sel.fps == 1 {
        75
    } else if sel.fps == 2 {
        100
    } else if sel.fps == 3 {
        120
    } else {
        240
    };
    let bitrate: u32 = if sel.bitrate == 0 {
        2000
    } else if sel.bitrate == 1 {
        4000
    } else if sel.bitrate == 2 {
        8000
    } else if sel.bitrate == 3 {
        16000
    } else {
        20000
    };
    DesktopArgs {
        host_id: args.host_id.clone(),
        server_url: args.server_url.clone(),
        token: args.token.clone(),
        width,
        height,
        fps,
        bitrate,
        codec: codec_value(sel.codec),
        app_id: args.app_id,
    }
}

/// What the overlay shows, and the options picked in its dialog.
#[derive(Debug, Clone, Copy, PartialEq, Eq, Structural)]
pub struct OverlayState {
    pub show_menu: bool,
    /// The menu's top edge: -38 when hidden, 10 when shown, sliding between.
    pub menu_y_offset: i32,
    pub show_stats: bool,
    pub pointer_locked: bool,
    pub fullscreen: bool,
    pub show_settings: bool,
    pub selection: Selection,
}

impl OverlayState {
    /// The menu's offset is one of the steps between its hidden and shown
    /// positions, and each selection names an option.
    pub open spec fn wf(self) -> bool {
        &&& -38 <= self.menu_y_offset <= 10
        &&& (self.menu_y_offset + 38) % 2 == 0
        &&& self.selection.valid()
    }

    /// The overlay at the start of a stream: everything hidden, the dialog's
    /// options matching the session.
    pub fn new(args: &DesktopArgs) -> (s: OverlayState)
        ensures
            s.wf(),
            s == (OverlayState {
                show_menu: false,
                menu_y_offset: -38i32,
                show_stats: false,
                pointer_locked: false,
                fullscreen: false,
                show_settings: false,
                selection: initial_selection(
                    args.width,
                    args.height,
                    args.fps,
                    args.codec@,
                    args.bitrate,
                ),
            }),
    {
        OverlayState {
            show_menu: false,
            menu_y_offset: -38,
            show_stats: false,
            pointer_locked: false,
            fullscreen: false,
            show_settings: false,
            selection: select_options(args),
        }
    }
}

/// One frame of the menu's slide: two pixels toward 10 while it is shown,
/// toward -38 while hidden.
pub open spec fn slide(s: OverlayState) -> OverlayState {
    let target = if s.show_menu {
        10int
    } else {
        -38int
    };
    if s.menu_y_offset < target {
        OverlayState { menu_y_offset: (s.menu_y_offset + 2) as i32, ..s }
    } else if s.menu_y_offset > target {
        OverlayState { menu_y_offset: (s.menu_y_offset - 2) as i32, ..s }
    } else {
        s
    }
}

/// The index of the last button under the point among the first `n`, or
/// `cur` when none is.
pub open spec fn pick(btns: Seq<Rect>, n: int, mx: int, my: int, cur: usize) -> usize
    decreases n,
{
    if n <= 0 {
        cur
    } else if inside(mx, my, btns[n - 1]) {
        (n - 1) as usize
    } else {
        pick(btns, n - 1, mx, my, cur)
    }
}

/// Whether some button is under the point.
pub open spec fn any_inside(btns: Seq<Rect>, mx: int, my: int) -> bool {
    exists|i: int| 0 <= i < btns.len() && inside(mx, my, #[trigger] btns[i])
}

/// The dialog after a click: Cancel closes it, and a click on an option
/// selects it.
pub open spec fn settings_click(s: OverlayState, mx: int, my: int, cx: int, cy: int) -> OverlayState {
    OverlayState {
        show_settings: !inside(mx, my, cancel_button(cx, cy)),
        selection: Selection {
            res: pick(res_buttons(cx, cy), 3, mx, my, s.selection.res),
            fps: pick(fps_buttons(cx, cy), 5, mx, my, s.selection.fps),
            codec: pick(codec_buttons(cx, cy), 3, mx, my, s.selection.codec),
            bitrate: pick(bitrate_buttons(cx, cy), 5, mx, my, s.selection.bitrate),
        },
        ..s
    }
}

/// Whether the click fell on Cancel or on an option.
pub open spec fn settings_hit(mx: int, my: int, cx: int, cy: int) -> bool {
    inside(mx, my, cancel_button(cx, cy)) || any_inside(res_buttons(cx, cy), mx, my) || any_inside(
        fps_buttons(cx, cy),
        mx,
        my,
    ) || any_inside(codec_buttons(cx, cy), mx, my) || any_inside(bitrate_buttons(cx, cy), mx, my)
}

/// What a menu button does: Fullscreen, Lock and Stats switch their state,
/// Settings opens the dialog.
pub open spec fn press(b: MenuButton, s: OverlayState) -> OverlayState {
    match b {
        MenuButton::Fullscreen => OverlayState { fullscreen: !s.fullscreen, ..s },
        MenuButton::Lock => OverlayState { pointer_locked: !s.pointer_locked, ..s },
        MenuButton::Stats => OverlayState { show_stats: !s.show_stats, ..s },
        MenuButton::Settings => OverlayState { show_settings: true, ..s },
        MenuButton::Exit => s,
    }
}

/// The buttons among the first `n` under the point, pressed in order;
/// `None` once Exit is pressed.
pub open spec fn menu_presses(
    btns: Seq<(Rect, MenuButton)>,
    n: int,
    mx: int,
    my: int,
    s: OverlayState,
) -> Option<OverlayState>
    decreases n,
{
    if n <= 0 {
        Some(s)
    } else {
        match menu_presses(btns, n - 1, mx, my, s) {
            None => None,
            Some(t) => if inside(mx, my, btns[n - 1].0) {
                if btns[n - 1].1 == MenuButton::Exit {
                    None
                } else {
                    Some(press(btns[n - 1].1, t))
                }
            } else {
                Some(t)
            },
        }
    }
}

proof fn lemma_exit_stays(
    btns: Seq<(Rect, MenuButton)>,
    n: int,
    m: int,
    mx: int,
    my: int,
    s: OverlayState,
)
    requires
        0 <= n <= m,
        menu_presses(btns, n, mx, my, s) is None,
    ensures
        menu_presses(btns, m, mx, my, s) is None,
    decreases m - n,
{
    if n < m {
        lemma_exit_stays(btns, n, m - 1, mx, my, s);
    }
}

/// Whether some menu button is under the point.
pub open spec fn menu_hit(btns: Seq<(Rect, MenuButton)>, mx: int, my: int) -> bool {
    exists|i: int| 0 <= i < btns.len() && inside(mx, my, #[trigger] btns[i].0)
}

/// What the client does with a click.
#[derive(Debug, Clone, Copy, PartialEq, Eq, Structural)]
pub enum ClickOutcome {
    /// Leave the stream.
    Exit,
    /// Restart the stream with the selected options.
    Apply,
    /// The overlay took the click.
    Consumed,
    /// The click goes on to the host.
    Forward,
}

/// A click at a point: with the dialog open, Apply restarts the stream,
/// Cancel closes the dialog and an option is selected, and no click reaches
/// the host while the dialog stays open; then, with the menu shown, its
/// buttons act (Exit leaves); then, with the menu hidden and slid away, the
/// trigger strip shows it. A click that none of these took goes to the host.
pub open spec fn click(s: OverlayState, mx: int, my: int, win_w: int, win_h: int) -> (
    OverlayState,
    ClickOutcome,
) {
    let cx = half(win_w);
    let cy = half(win_h);
    if s.show_settings && !inside(mx, my, cancel_button(cx, cy)) && inside(
        mx,
        my,
        apply_button(cx, cy),
    ) {
        (s, ClickOutcome::Apply)
    } else {
        let s1 = if s.show_settings {
            settings_click(s, mx, my, cx, cy)
        } else {
            s
        };
        let h1 = s.show_settings && settings_hit(mx, my, cx, cy);
        if s1.show_settings {
            (s1, ClickOutcome::Consumed)
        } else {
            let btns = menu_buttons(win_w, s1.menu_y_offset as int);
            let m = if s1.show_menu {
                menu_presses(btns, 5, mx, my, s1)
            } else {
                Some(s1)
            };
            match m {
                None => (s1, ClickOutcome::Exit),
                Some(s2) => {
                    let h2 = s1.show_menu && menu_hit(btns, mx, my);
                    let trig = !s2.show_menu && s2.menu_y_offset <= -35 && inside(
                        mx,
                        my,
                        trigger_rect(win_w),
                    );
                    let s3 = if trig {
                        OverlayState { show_menu: true, ..s2 }
                    } else {
                        s2
                    };
                    (
                        s3,
                        if h1 || h2 || trig {
                            ClickOutcome::Consumed
                        } else {
                            ClickOutcome::Forward
                        },
                    )
                },
            }
        }
    }
}

/// The last button of `btns` under the point, or `cur`; and whether any is.
fn pick_button(btns: &Vec<Rect>, mx: i32, my: i32, cur: usize) -> (res: (usize, bool))
    ensures
        res.0 == pick(btns@, btns@.len() as int, mx as int, my as int, cur),
        res.1 == any_inside(btns@, mx as int, my as int),
{
    let mut sel = cur;
    let mut hit = false;
    let mut i: usize = 0;
    while i < btns.len()
        invariant
            i <= btns@.len(),
            sel == pick(btns@, i as int, mx as int, my as int, cur),
            hit == (exists|j: int| 0 <= j < i && inside(mx as int, my as int, #[trigger] btns@[j])),
        decreases btns@.len() - i,
    {
        if is_inside(mx, my, btns[i]) {
            sel = i;
            hit = true;
        }
        i = i + 1;
    }
    (sel, hit)
}

impl OverlayState {
    /// Moves the menu one frame toward where it belongs; whether it moved.
    pub fn slide_menu(&mut self) -> (moved: bool)
        requires
            old(self).wf(),
        ensures
            final(self).wf(),
            *final(self) == slide(*old(self)),
            moved == (*final(self) != *old(self)),
    {
        let target: i32 = if self.show_menu {
            10
        } else {
            -38
        };
        if self.menu_y_offset < target {
            self.menu_y_offset = self.menu_y_offset + 2;
            true
        } else if self.menu_y_offset > target {
            self.menu_y_offset = self.menu_y_offset - 2;
            true
        } else {
            false
        }
    }

    /// After `idle_ms` milliseconds without activity, a shown menu hides
    /// unless the pointer rests on it (the dialog keeps it). Gives whether
    /// the pointer on the menu counts as activity.
    pub fn auto_hide(&mut self, idle_ms: u64, mx: i32, my: i32, win_w: i32) -> (active: bool)
        requires
            old(self).wf(),
        ensures
            final(self).wf(),
            ({
                let due = old(self).show_menu && !old(self).show_settings && idle_ms >= 3000;
                let on_menu = inside(
                    mx as int,
                    my as int,
                    menu_rect(win_w as int, old(self).menu_y_offset as int),
                );
                &&& active == (due && on_menu)
                &&& *final(self) == (if due && !on_menu {
                    OverlayState { show_menu: false, ..*old(self) }
                } else {
                    *old(self)
                })
            }),
    {
        if self.show_menu && !self.show_settings && idle_ms >= 3000 {
            let r = get_menu_rect(win_w, self.menu_y_offset);
            if !is_inside(mx, my, r) {
                self.show_menu = false;
                false
            } else {
                true
            }
        } else {
            false
        }
    }

    /// The pointer moved to a point: on the shown menu it counts as
    /// activity; on the trigger strip it shows the hidden menu. Gives
    /// whether it counts as activity.
    pub fn on_motion(&mut self, x: i32, y: i32, win_w: i32) -> (active: bool)
        requires
            old(self).wf(),
        ensures
            final(self).wf(),
            old(self).show_menu ==> *final(self) == *old(self) && active == inside(
                x as int,
                y as int,
                menu_rect(win_w as int, old(self).menu_y_offset as int),
            ),
            !old(self).show_menu ==> active == inside(x as int, y as int, trigger_rect(win_w as int))
                && *final(self) == (OverlayState { show_menu: active, ..*old(self) }),
    {
        if self.show_menu {
            let r = get_menu_rect(win_w, self.menu_y_offset);
            is_inside(x, y, r)
        } else {
            let t = get_trigger_rect(win_w);
            if is_inside(x, y, t) {
                self.show_menu = true;
                true
            } else {
                false
            }
        }
    }

    /// Ctrl+Alt with Escape, M or Z: the pointer is released and the menu
    /// shown.
    pub fn release_pointer(&mut self)
        requires
            old(self).wf(),
        ensures
            final(self).wf(),
            *final(self) == (OverlayState { pointer_locked: false, show_menu: true, ..*old(self) }),
    {
        self.pointer_locked = false;
        self.show_menu = true;
    }

    /// Handles a click at a point of a window of the given size.
    pub fn on_click(&mut self, mx: i32, my: i32, win_w: i32, win_h: i32) -> (res: ClickOutcome)
        requires
            old(self).wf(),
        ensures
            final(self).wf(),
            (*final(self), res) == click(*old(self), mx as int, my as int, win_w as int, win_h as int),
    {
        let ghost s0 = *self;
        let mut handled = false;
        if self.show_settings {
            let layout = get_settings_layout(win_w, win_h);
            let cancel = is_inside(mx, my, layout.cancel_btn);
            if cancel {
                self.show_settings = false;
                handled = true;
            } else if is_inside(mx, my, layout.apply_btn) {
                return ClickOutcome::Apply;
            }
            let (r, hr) = pick_button(&layout.res_btns, mx, my, self.selection.res);
            let (f, hf) = pick_button(&layout.fps_btns, mx, my, self.selection.fps);
            let (c, hc) = pick_button(&layout.codec_btns, mx, my, self.selection.codec);
            let (b, hb) = pick_button(&layout.bitrate_btns, mx, my, self.selection.bitrate);
            self.selection = Selection { res: r, fps: f, codec: c, bitrate: b };
            handled = handled || hr || hf || hc || hb;
            proof {
                reveal_with_fuel(pick, 6);
            }
        }
        if self.show_settings {
            return ClickOutcome::Consumed;
        }
        let s1 = *self;
        let ghost h1 = handled;
        if self.show_menu {
            let buttons = get_menu_buttons(win_w, self.menu_y_offset);
            let mut i: usize = 0;
            while i < buttons.len()
                invariant
                    i <= buttons@.len(),
                    buttons@ == menu_buttons(win_w as int, s1.menu_y_offset as int),
                    menu_presses(buttons@, i as int, mx as int, my as int, s1) == Some(*self),
                    handled == (h1 || exists|j: int|
                        0 <= j < i && inside(mx as int, my as int, #[trigger] buttons@[j].0)),
                    self.wf(),
                    !self.show_menu == !s1.show_menu,
                    self.menu_y_offset == s1.menu_y_offset,
                    s1.wf(),
                    s0 == *old(self),
                    menu_presses(buttons@, 5, mx as int, my as int, s1) is None ==> (
                        s1,
                        ClickOutcome::Exit,
                    ) == click(s0, mx as int, my as int, win_w as int, win_h as int),
                decreases buttons@.len() - i,
            {
                let (r, b) = buttons[i];
                if is_inside(mx, my, r) {
                    match b {
                        MenuButton::Exit => {
                            proof {
                                assert(buttons@[i as int].0 == r && buttons@[i as int].1 == b);
                                assert(menu_presses(buttons@, i + 1, mx as int, my as int, s1) is None);
                                lemma_exit_stays(buttons@, i + 1, 5, mx as int, my as int, s1);
                            }
                            *self = s1;
                            return ClickOutcome::Exit;
                        },
                        MenuButton::Fullscreen => {
                            self.fullscreen = !self.fullscreen;
                        },
                        MenuButton::Lock => {
                            self.pointer_locked = !self.pointer_locked;
                        },
                        MenuButton::Stats => {
                            self.show_stats = !self.show_stats;
                        },
                        MenuButton::Settings => {
                            self.show_settings = true;
                        },
                    }
                    handled = true;
                }
                i = i + 1;
            }
        }
        if !self.show_menu && self.menu_y_offset <= -35 {
            let t = get_trigger_rect(win_w);
            if is_inside(mx, my, t) {
                self.show_menu = true;
                handled = true;
            }
        }
        if handled {
            ClickOutcome::Consumed
        } else {
            ClickOutcome::Forward
        }
    }
}

/// Ctrl+Alt with Escape, M or Z (SDL key codes) releases the pointer.
pub fn is_release_hotkey(ctrl: bool, alt: bool, keycode: i32) -> (res: bool)
    ensures
        res == (ctrl && alt && (keycode == 27 || keycode == 109 || keycode == 122)),
{
    ctrl && alt && (keycode == 27 || keycode == 109 || keycode == 122)
}

/// While the settings dialog is open, no click goes on to the host: it
/// applies, is taken by the dialog, or, once Cancel closed it, by the
/// overlay.
pub proof fn law_dialog_keeps_clicks(s: OverlayState, mx: int, my: int, win_w: int, win_h: int)
    requires
        s.show_settings,
    ensures
        click(s, mx, my, win_w, win_h).1 != ClickOutcome::Forward,
{
}

/// The overlay after `n` frames of sliding.
pub open spec fn slide_frames(s: OverlayState, n: nat) -> OverlayState
    decreases n,
{
    if n == 0 {
        s
    } else {
        slide_frames(slide(s), (n - 1) as nat)
    }
}

/// Where the menu belongs: shown at 10, hidden at -38.
pub open spec fn menu_target(s: OverlayState) -> int {
    if s.show_menu {
        10
    } else {
        -38
    }
}

proof fn lemma_settles(s: OverlayState, n: nat)
    requires
        s.wf(),
        2 * n >= (if s.menu_y_offset >= menu_target(s) {
            s.menu_y_offset - menu_target(s)
        } else {
            menu_target(s) - s.menu_y_offset
        }),
    ensures
        slide_frames(s, n) == (OverlayState { menu_y_offset: menu_target(s) as i32, ..s }),
    decreases n,
{
    if n > 0 {
        let t = slide(s);
        assert(t.wf());
        lemma_settles(t, (n - 1) as nat);
    }
}

/// The menu slides to where it belongs within 24 frames and then stays;
/// nothing else changes.
pub proof fn law_menu_settles(s: OverlayState, n: nat)
    requires
        s.wf(),
        n >= 24,
    ensures
        slide_frames(s, n) == (OverlayState { menu_y_offset: menu_target(s) as i32, ..s }),
{
    lemma_settles(s, n);
}

} // verus!
