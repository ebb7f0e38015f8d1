//! Rendering text under a terminal style. The terminal styling engine is an
//! outside crate; whether escape codes appear around colored text also
//! depends on the stream and environment, so nothing exact can be said of a
//! colored rendering. What the engine does guarantee — and what the theme
//! contracts rest on — is that a style with no colors set writes no escape
//! codes at all, on any terminal: the text comes back unchanged.
//!
//! The engine's style value is held opaquely in `TermStyle`, beside a flag
//! recording whether any color has been set; `term_style_has_color` names
//! that flag, and every constructor's contract keeps it faithful.

use vstd::prelude::*;

verus! {

/// A terminal style under construction: the engine's style value, and a
/// record of whether any foreground or background color has been set.
#[verifier::external_body]
pub struct TermStyle {
    inner: dialoguer::console::Style,
    has_color: bool,
}

/// Whether any foreground or background color has been set on this style.
pub uninterp spec fn term_style_has_color(s: TermStyle) -> bool;

/// Relies on `console::Style::new`: an empty style, with no colors and no
/// attributes.
#[verifier::external_body]
pub fn term_style_new() -> (r: TermStyle)
    ensures
        !term_style_has_color(r),
{
    TermStyle { inner: dialoguer::console::Style::new(), has_color: false }
}

/// Relies on `console::Style::for_stderr`: only the stream whose color
/// support is consulted changes; no color is set.
#[verifier::external_body]
pub fn term_style_for_stderr(s: TermStyle) -> (r: TermStyle)
    ensures
        term_style_has_color(r) == term_style_has_color(s),
{
    TermStyle { inner: s.inner.for_stderr(), has_color: s.has_color }
}

/// Relies on `console::Style::fg`: sets the foreground to the given
/// 256-color palette index.
#[verifier::external_body]
pub fn term_style_fg(s: TermStyle, color: u8) -> (r: TermStyle)
    ensures
        term_style_has_color(r),
{
    TermStyle { inner: s.inner.fg(dialoguer::console::Color::Color256(color)), has_color: true }
}

/// Relies on `console::Style::bg`: sets the background to the given
/// 256-color palette index.
#[verifier::external_body]
pub fn term_style_bg(s: TermStyle, color: u8) -> (r: TermStyle)
    ensures
        term_style_has_color(r),
{
    TermStyle { inner: s.inner.bg(dialoguer::console::Color::Color256(color)), has_color: true }
}

/// Relies on `console::Style::bright`: brightens the foreground color. It
/// sets no color of its own, so a style without colors stays without.
#[verifier::external_body]
pub fn term_style_bright(s: TermStyle) -> (r: TermStyle)
    ensures
        term_style_has_color(r) == term_style_has_color(s),
{
    TermStyle { inner: s.inner.bright(), has_color: s.has_color }
}

/// Relies on `console::Style::on_bright`: brightens the background color. It
/// sets no color of its own, so a style without colors stays without.
#[verifier::external_body]
pub fn term_style_on_bright(s: TermStyle) -> (r: TermStyle)
    ensures
        term_style_has_color(r) == term_style_has_color(s),
{
    TermStyle { inner: s.inner.on_bright(), has_color: s.has_color }
}

/// Relies on `console::Style::apply_to` and the display form of its result:
/// escape codes are written only around colored or attributed text, and none
/// of the constructors above sets an attribute, so a style without colors
/// renders the text unchanged on every terminal.
#[verifier::external_body]
pub fn term_style_render(s: &TermStyle, text: &str) -> (r: String)
    ensures
        !term_style_has_color(*s) ==> r@ == text@,
{
    format!("{}", s.inner.apply_to(text))
}

} // verus!
