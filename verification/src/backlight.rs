//! Backlight levels exposed to the scripting layer.
//!
//! On builds without a model theme every level is zero; the theme of a
//! concrete device overrides these at its own layer.

use vstd::prelude::*;

verus! {

pub fn get_backlight_none() -> (n: u16)
    ensures
        n == 0,
{
    0
}

pub fn get_backlight_normal() -> (n: u16)
    ensures
        n == 0,
{
    0
}

pub fn get_backlight_low() -> (n: u16)
    ensures
        n == 0,
{
    0
}

pub fn get_backlight_dim() -> (n: u16)
    ensures
        n == 0,
{
    0
}

pub fn get_backlight_max() -> (n: u16)
    ensures
        n == 0,
{
    0
}

} // verus!
