use vstd::prelude::*;

use crate::events::keyboard::K;
use crate::events::keyboard::{
    XK_0, XK_1, XK_2, XK_3, XK_4, XK_5, XK_6, XK_7, XK_8, XK_9, XK_F1, XK_F2, XK_F3, XK_F4,
    XK_F5, XK_F6, XK_F7, XK_F8, XK_F9, XK_F10, XK_F11, XK_F12, XK_a, XK_b, XK_c, XK_d, XK_e,
    XK_f, XK_g, XK_h, XK_i, XK_j, XK_k, XK_l, XK_m, XK_n, XK_o, XK_p, XK_q, XK_r, XK_s, XK_t,
    XK_u, XK_v, XK_w, XK_x, XK_y, XK_z, XK_apostrophe, XK_comma, XK_minus, XK_period, XK_slash,
    XK_semicolon, XK_less, XK_equal, XK_bracketleft, XK_backslash, XK_bracketright, XK_grave,
    XK_Left, XK_Up, XK_Down, XK_Right, XK_space, XK_BackSpace, XK_Tab, XK_Return, XK_Delete,
    XK_Caps_Lock, XK_Shift_L, XK_Shift_R, XK_Control_L, XK_Control_R, XK_Super_L, XK_Alt_L,
    XK_Alt_R, XK_Home, XK_End, XK_Print, XK_Escape,
};

verus! {

/// A keysym becomes the key it stands for.
impl From<u32> for K {
    fn from(value: u32) -> (k: Self)
        ensures
            k == K::of_keysym(value),
            k != K::Count,
    {
        let k = match value {
            XK_0 => K::K0,
            XK_1 => K::K1,
            XK_2 => K::K2,
            XK_3 => K::K3,
            XK_4 => K::K4,
            XK_5 => K::K5,
            XK_6 => K::K6,
            XK_7 => K::K7,
            XK_8 => K::K8,
            XK_9 => K::K9,
            XK_F1 => K::F1,
            XK_F2 => K::F2,
            XK_F3 => K::F3,
            XK_F4 => K::F4,
            XK_F5 => K::F5,
            XK_F6 => K::F6,
            XK_F7 => K::F7,
            XK_F8 => K::F8,
            XK_F9 => K::F9,
            XK_F10 => K::F10,
            XK_F11 => K::F11,
            XK_F12 => K::F12,
            XK_a => K::A,
            XK_b => K::B,
            XK_c => K::C,
            XK_d => K::D,
            XK_e => K::E,
            XK_f => K::F,
            XK_g => K::G,
            XK_h => K::H,
            XK_i => K::I,
            XK_j => K::J,
            XK_k => K::K,
            XK_l => K::L,
            XK_m => K::M,
            XK_n => K::N,
            XK_o => K::O,
            XK_p => K::P,
            XK_q => K::Q,
            XK_r => K::R,
            XK_s => K::S,
            XK_t => K::T,
            XK_u => K::U,
            XK_v => K::V,
            XK_w => K::W,
            XK_x => K::X,
            XK_y => K::Y,
            XK_z => K::Z,
            XK_apostrophe => K::Quote,
            XK_comma => K::Comma,
            XK_minus => K::Dash,
            XK_period => K::Period,
            XK_slash => K::ForwardSlash,
            XK_semicolon => K::SemiColon,
            XK_less => K::LessThan,
            XK_equal => K::Equal,
            XK_bracketleft => K::SquareOpen,
            XK_backslash => K::BackSlash,
            XK_bracketright => K::SquareClose,
            XK_grave => K::BackTick,
            XK_Left => K::ArrowLeft,
            XK_Up => K::ArrowUp,
            XK_Down => K::ArrowDown,
            XK_Right => K::ArrowRight,
            XK_space => K::Space,
            XK_BackSpace => K::BackSpace,
            XK_Tab => K::Tab,
            XK_Return => K::Enter,
            XK_Delete => K::Delete,
            XK_Caps_Lock => K::CapsLock,
            XK_Shift_L => K::LeftShift,
            XK_Shift_R => K::RightShift,
            XK_Control_L => K::LeftCtrl,
            XK_Control_R => K::RightCtrl,
            XK_Super_L => K::Mod,
            XK_Alt_L => K::Alt,
            XK_Alt_R => K::RightAlt,
            XK_Home => K::Home,
            XK_End => K::End,
            XK_Print => K::Print,
            XK_Escape => K::Escape,
            _ => K::Unknown,
        };
        proof {
            if k.keysym() == Some(value) {
                K::lemma_keysym_names_one_key(k, K::of_keysym(value));
            } else {
                assert forall|o: K| o.keysym() != Some(value) by {}
            }
        }
        k
    }
}

impl vstd::std_specs::convert::FromSpecImpl<u32> for K {
    open spec fn obeys_from_spec() -> bool {
        true
    }

    open spec fn from_spec(v: u32) -> K {
        K::of_keysym(v)
    }
}

/// The low 32 bits of `v`.
pub open spec fn low_word(v: int) -> u32 {
    (v % 0x1_0000_0000) as u32
}

/// Only the low 32 bits of the value are looked at.
impl From<usize> for K {
    fn from(value: usize) -> (k: Self) {
        let wide: u64 = value as u64;
        K::from(wide)
    }
}

impl vstd::std_specs::convert::FromSpecImpl<usize> for K {
    open spec fn obeys_from_spec() -> bool {
        true
    }

    open spec fn from_spec(v: usize) -> K {
        K::of_keysym(low_word(v as int))
    }
}

/// Only the low 32 bits of the value are looked at.
impl From<u64> for K {
    fn from(value: u64) -> (k: Self) {
        let low: u32 = #[verifier::truncate]
        (value as u32);
        proof {
            assert(value as u32 == value % 0x1_0000_0000) by (bit_vector);
        }
        K::from(low)
    }
}

impl vstd::std_specs::convert::FromSpecImpl<u64> for K {
    open spec fn obeys_from_spec() -> bool {
        true
    }

    open spec fn from_spec(v: u64) -> K {
        K::of_keysym(low_word(v as int))
    }
}

} // verus!
