use vstd::prelude::*;

verus! {

/// The keys the toolkit knows by name. `Unknown` stands for every other
/// key; `Count` is no key, it closes the list.
#[derive(Debug, Clone, Copy, PartialEq, Eq, Structural)]
pub enum K {
    K0,
    K1,
    K2,
    K3,
    K4,
    K5,
    K6,
    K7,
    K8,
    K9,
    F1,
    F2,
    F3,
    F4,
    F5,
    F6,
    F7,
    F8,
    F9,
    F10,
    F11,
    F12,
    A,
    B,
    C,
    D,
    E,
    F,
    G,
    H,
    I,
    J,
    K,
    L,
    M,
    N,
    O,
    P,
    Q,
    R,
    S,
    T,
    U,
    V,
    W,
    X,
    Y,
    Z,
    Quote,
    Comma,
    Dash,
    Period,
    ForwardSlash,
    SemiColon,
    LessThan,
    Equal,
    SquareOpen,
    BackSlash,
    SquareClose,
    BackTick,
    ArrowLeft,
    ArrowUp,
    ArrowDown,
    ArrowRight,
    Space,
    BackSpace,
    Tab,
    Enter,
    Delete,
    CapsLock,
    LeftShift,
    RightShift,
    LeftCtrl,
    RightCtrl,
    Mod,
    Alt,
    RightAlt,
    Home,
    End,
    Print,
    Escape,
    Unknown,
    Count,
}

/// The X11 keysyms of the named keys.
#[allow(non_upper_case_globals)]
pub const XK_0: u32 = 0x0030;

#[allow(non_upper_case_globals)]
pub const XK_1: u32 = 0x0031;

#[allow(non_upper_case_globals)]
pub const XK_2: u32 = 0x0032;

#[allow(non_upper_case_globals)]
pub const XK_3: u32 = 0x0033;

#[allow(non_upper_case_globals)]
pub const XK_4: u32 = 0x0034;

#[allow(non_upper_case_globals)]
pub const XK_5: u32 = 0x0035;

#[allow(non_upper_case_globals)]
pub const XK_6: u32 = 0x0036;

#[allow(non_upper_case_globals)]
pub const XK_7: u32 = 0x0037;

#[allow(non_upper_case_globals)]
pub const XK_8: u32 = 0x0038;

#[allow(non_upper_case_globals)]
pub const XK_9: u32 = 0x0039;

#[allow(non_upper_case_globals)]
pub const XK_F1: u32 = 0xFFBE;

#[allow(non_upper_case_globals)]
pub const XK_F2: u32 = 0xFFBF;

#[allow(non_upper_case_globals)]
pub const XK_F3: u32 = 0xFFC0;

#[allow(non_upper_case_globals)]
pub const XK_F4: u32 = 0xFFC1;

#[allow(non_upper_case_globals)]
pub const XK_F5: u32 = 0xFFC2;

#[allow(non_upper_case_globals)]
pub const XK_F6: u32 = 0xFFC3;

#[allow(non_upper_case_globals)]
pub const XK_F7: u32 = 0xFFC4;

#[allow(non_upper_case_globals)]
pub const XK_F8: u32 = 0xFFC5;

#[allow(non_upper_case_globals)]
pub const XK_F9: u32 = 0xFFC6;

#[allow(non_upper_case_globals)]
pub const XK_F10: u32 = 0xFFC7;

#[allow(non_upper_case_globals)]
pub const XK_F11: u32 = 0xFFC8;

#[allow(non_upper_case_globals)]
pub const XK_F12: u32 = 0xFFC9;

#[allow(non_upper_case_globals)]
pub const XK_a: u32 = 0x0061;

#[allow(non_upper_case_globals)]
pub const XK_b: u32 = 0x0062;

#[allow(non_upper_case_globals)]
pub const XK_c: u32 = 0x0063;

#[allow(non_upper_case_globals)]
pub const XK_d: u32 = 0x0064;

#[allow(non_upper_case_globals)]
pub const XK_e: u32 = 0x0065;

#[allow(non_upper_case_globals)]
pub const XK_f: u32 = 0x0066;

#[allow(non_upper_case_globals)]
pub const XK_g: u32 = 0x0067;

#[allow(non_upper_case_globals)]
pub const XK_h: u32 = 0x0068;

#[allow(non_upper_case_globals)]
pub const XK_i: u32 = 0x0069;

#[allow(non_upper_case_globals)]
pub const XK_j: u32 = 0x006A;

#[allow(non_upper_case_globals)]
pub const XK_k: u32 = 0x006B;

#[allow(non_upper_case_globals)]
pub const XK_l: u32 = 0x006C;

#[allow(non_upper_case_globals)]
pub const XK_m: u32 = 0x006D;

#[allow(non_upper_case_globals)]
pub const XK_n: u32 = 0x006E;

#[allow(non_upper_case_globals)]
pub const XK_o: u32 = 0x006F;

#[allow(non_upper_case_globals)]
pub const XK_p: u32 = 0x0070;

#[allow(non_upper_case_globals)]
pub const XK_q: u32 = 0x0071;

#[allow(non_upper_case_globals)]
pub const XK_r: u32 = 0x0072;

#[allow(non_upper_case_globals)]
pub const XK_s: u32 = 0x0073;

#[allow(non_upper_case_globals)]
pub const XK_t: u32 = 0x0074;

#[allow(non_upper_case_globals)]
pub const XK_u: u32 = 0x0075;

#[allow(non_upper_case_globals)]
pub const XK_v: u32 = 0x0076;

#[allow(non_upper_case_globals)]
pub const XK_w: u32 = 0x0077;

#[allow(non_upper_case_globals)]
pub const XK_x: u32 = 0x0078;

#[allow(non_upper_case_globals)]
pub const XK_y: u32 = 0x0079;

#[allow(non_upper_case_globals)]
pub const XK_z: u32 = 0x007A;

#[allow(non_upper_case_globals)]
pub const XK_apostrophe: u32 = 0x0027;

#[allow(non_upper_case_globals)]
pub const XK_comma: u32 = 0x002C;

#[allow(non_upper_case_globals)]
pub const XK_minus: u32 = 0x002D;

#[allow(non_upper_case_globals)]
pub const XK_period: u32 = 0x002E;

#[allow(non_upper_case_globals)]
pub const XK_slash: u32 = 0x002F;

#[allow(non_upper_case_globals)]
pub const XK_semicolon: u32 = 0x003B;

#[allow(non_upper_case_globals)]
pub const XK_less: u32 = 0x003C;

#[allow(non_upper_case_globals)]
pub const XK_equal: u32 = 0x003D;

#[allow(non_upper_case_globals)]
pub const XK_bracketleft: u32 = 0x005B;

#[allow(non_upper_case_globals)]
pub const XK_backslash: u32 = 0x005C;

#[allow(non_upper_case_globals)]
pub const XK_bracketright: u32 = 0x005D;

#[allow(non_upper_case_globals)]
pub const XK_grave: u32 = 0x0060;

#[allow(non_upper_case_globals)]
pub const XK_Left: u32 = 0xFF51;

#[allow(non_upper_case_globals)]
pub const XK_Up: u32 = 0xFF52;

#[allow(non_upper_case_globals)]
pub const XK_Down: u32 = 0xFF54;

#[allow(non_upper_case_globals)]
pub const XK_Right: u32 = 0xFF53;

#[allow(non_upper_case_globals)]
pub const XK_space: u32 = 0x0020;

#[allow(non_upper_case_globals)]
pub const XK_BackSpace: u32 = 0xFF08;

#[allow(non_upper_case_globals)]
pub const XK_Tab: u32 = 0xFF09;

#[allow(non_upper_case_globals)]
pub const XK_Return: u32 = 0xFF0D;

#[allow(non_upper_case_globals)]
pub const XK_Delete: u32 = 0xFFFF;

#[allow(non_upper_case_globals)]
pub const XK_Caps_Lock: u32 = 0xFFE5;

#[allow(non_upper_case_globals)]
pub const XK_Shift_L: u32 = 0xFFE1;

#[allow(non_upper_case_globals)]
pub const XK_Shift_R: u32 = 0xFFE2;

#[allow(non_upper_case_globals)]
pub const XK_Control_L: u32 = 0xFFE3;

#[allow(non_upper_case_globals)]
pub const XK_Control_R: u32 = 0xFFE4;

#[allow(non_upper_case_globals)]
pub const XK_Super_L: u32 = 0xFFEB;

#[allow(non_upper_case_globals)]
pub const XK_Alt_L: u32 = 0xFFE9;

#[allow(non_upper_case_globals)]
pub const XK_Alt_R: u32 = 0xFFEA;

#[allow(non_upper_case_globals)]
pub const XK_Home: u32 = 0xFF50;

#[allow(non_upper_case_globals)]
pub const XK_End: u32 = 0xFF57;

#[allow(non_upper_case_globals)]
pub const XK_Print: u32 = 0xFF61;

#[allow(non_upper_case_globals)]
pub const XK_Escape: u32 = 0xFF1B;

impl K {
    /// The X11 keysym that stands for this key; none for `Unknown` and `Count`.
    pub open spec fn keysym(self) -> Option<u32> {
        match self {
            K::K0 => Some(XK_0),
            K::K1 => Some(XK_1),
            K::K2 => Some(XK_2),
            K::K3 => Some(XK_3),
            K::K4 => Some(XK_4),
            K::K5 => Some(XK_5),
            K::K6 => Some(XK_6),
            K::K7 => Some(XK_7),
            K::K8 => Some(XK_8),
            K::K9 => Some(XK_9),
            K::F1 => Some(XK_F1),
            K::F2 => Some(XK_F2),
            K::F3 => Some(XK_F3),
            K::F4 => Some(XK_F4),
            K::F5 => Some(XK_F5),
            K::F6 => Some(XK_F6),
            K::F7 => Some(XK_F7),
            K::F8 => Some(XK_F8),
            K::F9 => Some(XK_F9),
            K::F10 => Some(XK_F10),
            K::F11 => Some(XK_F11),
            K::F12 => Some(XK_F12),
            K::A => Some(XK_a),
            K::B => Some(XK_b),
            K::C => Some(XK_c),
            K::D => Some(XK_d),
            K::E => Some(XK_e),
            K::F => Some(XK_f),
            K::G => Some(XK_g),
            K::H => Some(XK_h),
            K::I => Some(XK_i),
            K::J => Some(XK_j),
            K::K => Some(XK_k),
            K::L => Some(XK_l),
            K::M => Some(XK_m),
            K::N => Some(XK_n),
            K::O => Some(XK_o),
            K::P => Some(XK_p),
            K::Q => Some(XK_q),
            K::R => Some(XK_r),
            K::S => Some(XK_s),
            K::T => Some(XK_t),
            K::U => Some(XK_u),
            K::V => Some(XK_v),
            K::W => Some(XK_w),
            K::X => Some(XK_x),
            K::Y => Some(XK_y),
            K::Z => Some(XK_z),
            K::Quote => Some(XK_apostrophe),
            K::Comma => Some(XK_comma),
            K::Dash => Some(XK_minus),
            K::Period => Some(XK_period),
            K::ForwardSlash => Some(XK_slash),
            K::SemiColon => Some(XK_semicolon),
            K::LessThan => Some(XK_less),
            K::Equal => Some(XK_equal),
            K::SquareOpen => Some(XK_bracketleft),
            K::BackSlash => Some(XK_backslash),
            K::SquareClose => Some(XK_bracketright),
            K::BackTick => Some(XK_grave),
            K::ArrowLeft => Some(XK_Left),
            K::ArrowUp => Some(XK_Up),
            K::ArrowDown => Some(XK_Down),
            K::ArrowRight => Some(XK_Right),
            K::Space => Some(XK_space),
            K::BackSpace => Some(XK_BackSpace),
            K::Tab => Some(XK_Tab),
            K::Enter => Some(XK_Return),
            K::Delete => Some(XK_Delete),
            K::CapsLock => Some(XK_Caps_Lock),
            K::LeftShift => Some(XK_Shift_L),
            K::RightShift => Some(XK_Shift_R),
            K::LeftCtrl => Some(XK_Control_L),
            K::RightCtrl => Some(XK_Control_R),
            K::Mod => Some(XK_Super_L),
            K::Alt => Some(XK_Alt_L),
            K::RightAlt => Some(XK_Alt_R),
            K::Home => Some(XK_Home),
            K::End => Some(XK_End),
            K::Print => Some(XK_Print),
            K::Escape => Some(XK_Escape),
            K::Unknown => None,
            K::Count => None,
        }
    }

    /// No two keys share a keysym.
    pub proof fn lemma_keysym_names_one_key(a: K, b: K)
        requires
            a.keysym() is Some,
            a.keysym() == b.keysym(),
        ensures
            a == b,
    {
    }

    /// The key that `sym` stands for: the one key with that keysym, or
    /// `Unknown` where no key has it.
    pub open spec fn of_keysym(sym: u32) -> K {
        if exists|k: K| k.keysym() == Some(sym) {
            choose|k: K| k.keysym() == Some(sym)
        } else {
            K::Unknown
        }
    }
}

} // verus!
