//! Animations of visual elements: the animation interface, effects, and
//! the geometry of rectangle and offset transitions.

pub mod anim;
pub mod effect;
pub mod rect_trans;
pub mod offset_shift;
