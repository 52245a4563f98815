//! Styles for on-screen highlights and popups, and the overlay engine that
//! drives a platform renderer.

use vstd::prelude::*;
use crate::element::{Rect, UIElement};
use crate::errors::AutomationError;

verus! {

/// A colour with red, green, blue and alpha components.
#[derive(Debug, Clone, Copy, PartialEq, Eq, Structural)]
pub struct Color {
    pub r: u8,
    pub g: u8,
    pub b: u8,
    pub a: u8,
}

impl Color {
    /// Opaque red.
    pub fn red() -> (c: Color)
        ensures
            c == (Color { r: 255, g: 0, b: 0, a: 255 }),
    {
        Color { r: 255, g: 0, b: 0, a: 255 }
    }

    /// Opaque green.
    pub fn green() -> (c: Color)
        ensures
            c == (Color { r: 0, g: 255, b: 0, a: 255 }),
    {
        Color { r: 0, g: 255, b: 0, a: 255 }
    }

    /// Opaque blue.
    pub fn blue() -> (c: Color)
        ensures
            c == (Color { r: 0, g: 0, b: 255, a: 255 }),
    {
        Color { r: 0, g: 0, b: 255, a: 255 }
    }

    /// Opaque yellow.
    pub fn yellow() -> (c: Color)
        ensures
            c == (Color { r: 255, g: 255, b: 0, a: 255 }),
    {
        Color { r: 255, g: 255, b: 0, a: 255 }
    }

    /// Fully transparent black.
    pub fn transparent() -> (c: Color)
        ensures
            c == (Color { r: 0, g: 0, b: 0, a: 0 }),
    {
        Color { r: 0, g: 0, b: 0, a: 0 }
    }

    /// The same colour with its alpha component replaced.
    pub fn with_alpha(&self, alpha: u8) -> (c: Color)
        ensures
            c == (Color { r: self.r, g: self.g, b: self.b, a: alpha }),
    {
        Color { r: self.r, g: self.g, b: self.b, a: alpha }
    }
}

/// A colour as the platform's drawing calls take it: red in the lowest
/// byte, then green, then blue; the alpha component is left out.
pub fn color_to_colorref(color: Color) -> (c: u32)
    ensures
        c == (color.r as u32) | ((color.g as u32) << 8) | ((color.b as u32) << 16),
{
    (color.r as u32) | ((color.g as u32) << 8) | ((color.b as u32) << 16)
}

/// Corner of an element at which a badge is drawn.
#[derive(Debug, Clone, Copy, PartialEq, Eq, Structural)]
pub enum Corner {
    TopLeft,
    TopRight,
    BottomLeft,
    BottomRight,
}

/// Style of a popup message.
#[derive(Debug, Clone, Copy, PartialEq, Eq, Structural)]
pub enum PopupStyle {
    Info,
    Success,
    Warning,
    Error,
    /// Background colour, then text colour.
    Custom(Color, Color),
}

/// Animation of a highlight.
#[derive(Debug, Clone, Copy, PartialEq, Eq, Structural)]
pub enum HighlightEffect {
    Pulsing { from: Color, to: Color },
    /// Blinks with the given interval in milliseconds.
    Blinking { interval_ms: u64 },
    Static,
}

/// Style of an element highlight.
#[derive(Debug)]
pub enum HighlightStyle {
    /// A frame of the given thickness in pixels.
    Border { thickness: u32, color: Color },
    /// A filled rectangle; the opacity runs from 0, invisible, to 255.
    Fill { color: Color, opacity: u8 },
    /// A label at one corner of the element.
    Badge { text: String, position: Corner },
}

/// The mathematical value of a [`HighlightStyle`].
pub ghost enum StyleView {
    Border { thickness: u32, color: Color },
    Fill { color: Color, opacity: u8 },
    Badge { text: Seq<char>, position: Corner },
}

impl View for HighlightStyle {
    type V = StyleView;

    open spec fn view(&self) -> StyleView {
        match *self {
            HighlightStyle::Border { thickness, color } => StyleView::Border { thickness, color },
            HighlightStyle::Fill { color, opacity } => StyleView::Fill { color, opacity },
            HighlightStyle::Badge { text, position } => StyleView::Badge { text: text@, position },
        }
    }
}

impl Clone for HighlightStyle {
    fn clone(&self) -> (r: HighlightStyle)
        ensures
            r@ == self@,
    {
        match self {
            HighlightStyle::Border { thickness, color } => HighlightStyle::Border {
                thickness: *thickness,
                color: *color,
            },
            HighlightStyle::Fill { color, opacity } => HighlightStyle::Fill {
                color: *color,
                opacity: *opacity,
            },
            HighlightStyle::Badge { text, position } => HighlightStyle::Badge {
                text: text.clone(),
                position: *position,
            },
        }
    }
}

/// The style of a highlight that names none: a red frame two pixels thick.
pub open spec fn default_highlight() -> StyleView {
    StyleView::Border { thickness: 2, color: Color { r: 255, g: 0, b: 0, a: 255 } }
}

/// The style that a highlight is drawn in: the given one, or the default.
pub open spec fn style_or_default(style: Option<HighlightStyle>) -> StyleView {
    match style {
        Some(s) => s@,
        None => default_highlight(),
    }
}

/// The style that a highlight is drawn in: the given one, or a red frame
/// two pixels thick.
pub fn highlight_style(style: Option<HighlightStyle>) -> (s: HighlightStyle)
    ensures
        s@ == style_or_default(style),
{
    match style {
        Some(s) => s,
        None => HighlightStyle::Border { thickness: 2, color: Color::red() },
    }
}

/// The style that a popup is shown in: the given one, or `Info`.
pub open spec fn popup_or_default(style: Option<PopupStyle>) -> PopupStyle {
    match style {
        Some(s) => s,
        None => PopupStyle::Info,
    }
}

/// The style that a popup is shown in: the given one, or `Info`.
pub fn popup_style(style: Option<PopupStyle>) -> (s: PopupStyle)
    ensures
        s == popup_or_default(style),
{
    match style {
        Some(s) => s,
        None => PopupStyle::Info,
    }
}

/// The rectangles to highlight: the bounds of the elements that have
/// bounds, in the elements' order.
pub open spec fn highlight_rects(elements: Seq<UIElement>) -> Seq<Rect>
    decreases elements.len(),
{
    if elements.len() == 0 {
        Seq::empty()
    } else {
        let before = highlight_rects(elements.drop_last());
        match elements.last().bounds {
            Some(b) => before.push(b),
            None => before,
        }
    }
}

/// The bounds of the elements that have bounds, in the elements' order. An
/// element whose bounds could not be read is passed over.
pub fn rects_to_highlight(elements: &[UIElement]) -> (rects: Vec<Rect>)
    ensures
        rects@ == highlight_rects(elements@),
{
    let mut rects: Vec<Rect> = Vec::new();
    let mut k: usize = 0;
    while k < elements.len()
        invariant
            k <= elements@.len(),
            rects@ == highlight_rects(elements@.take(k as int)),
        decreases elements@.len() - k,
    {
        proof {
            assert(elements@.take(k + 1).drop_last() =~= elements@.take(k as int));
            assert(elements@.take(k + 1).last() == elements@[k as int]);
        }
        match elements[k].bounds {
            Some(b) => {
                rects.push(b);
            },
            None => {},
        }
        k += 1;
    }
    proof {
        assert(elements@.take(k as int) =~= elements@);
    }
    rects
}

/// A request to a renderer.
pub ghost enum RenderCall {
    Initialize,
    /// Draw a highlight around the rectangle, in the style.
    DrawHighlight(Rect, StyleView),
    /// Show the text for the number of milliseconds, in the style.
    ShowPopup(Seq<char>, u64, PopupStyle),
    Clear,
    Update,
    Start,
    Stop,
}

/// A platform's screen renderer.
///
/// The library fixes what it asks of the renderer and hands on what the
/// renderer answers. The spec function names the answers that a renderer
/// may give; the renderer defines it, and may admit every answer.
pub trait OverlayRenderer {
    /// Whether a renderer in this state may answer `call` with `r`, and be
    /// in the state `after` then.
    open spec fn answers(&self, call: RenderCall, r: Result<(), AutomationError>, after: &Self) -> bool {
        true
    }

    /// Prepares the renderer.
    fn initialize(&mut self) -> (r: Result<(), AutomationError>)
        ensures
            old(self).answers(RenderCall::Initialize, r, &*final(self)),
    ;

    /// Draws a highlight around a rectangle.
    fn draw_highlight(&mut self, bounds: Rect, style: HighlightStyle) -> (r: Result<
        (),
        AutomationError,
    >)
        ensures
            old(self).answers(RenderCall::DrawHighlight(bounds, style@), r, &*final(self)),
    ;

    /// Shows a message for the given number of milliseconds.
    fn show_popup(&mut self, text: &str, duration_ms: u64, style: PopupStyle) -> (r: Result<
        (),
        AutomationError,
    >)
        ensures
            old(self).answers(RenderCall::ShowPopup(text@, duration_ms, style), r, &*final(self)),
    ;

    /// Removes all drawings.
    fn clear(&mut self) -> (r: Result<(), AutomationError>)
        ensures
            old(self).answers(RenderCall::Clear, r, &*final(self)),
    ;

    /// Brings the display up to date.
    fn update(&mut self) -> (r: Result<(), AutomationError>)
        ensures
            old(self).answers(RenderCall::Update, r, &*final(self)),
    ;

    /// Starts the renderer.
    fn start(&mut self) -> (r: Result<(), AutomationError>)
        ensures
            old(self).answers(RenderCall::Start, r, &*final(self)),
    ;

    /// Stops the renderer.
    fn stop(&mut self) -> (r: Result<(), AutomationError>)
        ensures
            old(self).answers(RenderCall::Stop, r, &*final(self)),
    ;
}

/// A success without value is the success without value: there is one only.
pub proof fn lemma_one_success(r: Result<(), AutomationError>)
    requires
        r is Ok,
    ensures
        r == Ok::<(), AutomationError>(()),
{
    match r {
        Ok(u) => {
            assert(u == ());
        },
        Err(_) => {},
    }
}

/// Whether a renderer in the state `before` may answer the requests to
/// highlight `rects[k]`, `rects[k + 1]`, ... one after the other, and then
/// the request to update, with `r`, and be in the state `after` then. A
/// request that fails ends the run: its error is `r`, and no further request
/// is made.
pub open spec fn draws_from<R: OverlayRenderer>(
    before: R,
    rects: Seq<Rect>,
    style: StyleView,
    k: int,
    r: Result<(), AutomationError>,
    after: R,
) -> bool
    decreases rects.len() - k,
{
    if k < 0 || k >= rects.len() {
        before.answers(RenderCall::Update, r, &after)
    } else {
        exists|step: Result<(), AutomationError>, mid: R| #[trigger]
            before.answers(RenderCall::DrawHighlight(rects[k], style), step, &mid) && if step
                is Err {
                r == step && after == mid
            } else {
                draws_from(mid, rects, style, k + 1, r, after)
            }
    }
}

/// Whether a renderer in the state `before` may answer the request to
/// clear, then the requests to highlight each of `rects`, then the request
/// to update, with `r`, and be in the state `after` then. A request that
/// fails ends the run with its error.
pub open spec fn highlights<R: OverlayRenderer>(
    before: R,
    rects: Seq<Rect>,
    style: StyleView,
    r: Result<(), AutomationError>,
    after: R,
) -> bool {
    exists|step: Result<(), AutomationError>, mid: R| #[trigger]
        before.answers(RenderCall::Clear, step, &mid) && if step is Err {
            r == step && after == mid
        } else {
            draws_from(mid, rects, style, 0, r, after)
        }
}

/// What a call that switches between on and off gives for a renderer's
/// answer: whether the engine is on afterwards.
pub open spec fn switched(r: Result<bool, AutomationError>) -> Result<(), AutomationError> {
    match r {
        Ok(_) => Ok(()),
        Err(e) => Err(e),
    }
}

/// Drives a renderer, and draws only while it is enabled.
pub struct OverlayEngine<R: OverlayRenderer> {
    pub renderer: R,
    pub enabled: bool,
}

impl<R: OverlayRenderer> OverlayEngine<R> {
    /// What a drawing request does to an engine: nothing to a disabled one,
    /// with success; an enabled one hands `call` to its renderer, returns
    /// the renderer's answer `r`, and stays enabled.
    pub open spec fn asks(self, call: RenderCall, r: Result<(), AutomationError>, after: Self) -> bool {
        if self.enabled {
            after.enabled && self.renderer.answers(call, r, &after.renderer)
        } else {
            r is Ok && after == self
        }
    }

    /// What starting does to an engine: nothing to an enabled one, with
    /// success; a disabled one asks its renderer to start, returns the
    /// renderer's answer `r`, and is enabled exactly if that is a success.
    pub open spec fn starts(self, r: Result<(), AutomationError>, after: Self) -> bool {
        if self.enabled {
            r is Ok && after == self
        } else {
            after.enabled == (r is Ok) && self.renderer.answers(
                RenderCall::Start,
                r,
                &after.renderer,
            )
        }
    }

    /// What stopping does to an engine: nothing to a disabled one, with
    /// success; an enabled one asks its renderer to stop, returns the
    /// renderer's answer `r`, and is disabled exactly if that is a success.
    pub open spec fn stops(self, r: Result<(), AutomationError>, after: Self) -> bool {
        if self.enabled {
            after.enabled == (r is Err) && self.renderer.answers(RenderCall::Stop, r, &after.renderer)
        } else {
            r is Ok && after == self
        }
    }

    /// What highlighting does to an engine: nothing to a disabled one, with
    /// success; an enabled one has its renderer clear, highlight each of
    /// `rects` in `style` and update, returns the first error or the answer
    /// to the update, and stays enabled.
    pub open spec fn highlights(
        self,
        rects: Seq<Rect>,
        style: StyleView,
        r: Result<(), AutomationError>,
        after: Self,
    ) -> bool {
        if self.enabled {
            after.enabled && highlights(self.renderer, rects, style, r, after.renderer)
        } else {
            r is Ok && after == self
        }
    }

    /// An engine over `renderer`, not yet enabled. The renderer is asked to
    /// prepare itself; where it fails, so does the call, with the renderer's
    /// error.
    pub fn new(renderer: R) -> (r: Result<OverlayEngine<R>, AutomationError>)
        ensures
            match r {
                Ok(engine) => !engine.enabled && renderer.answers(
                    RenderCall::Initialize,
                    Ok(()),
                    &engine.renderer,
                ),
                Err(e) => exists|after: R| #[trigger]
                    renderer.answers(RenderCall::Initialize, Err(e), &after),
            },
    {
        let mut prepared = renderer;
        let answer = prepared.initialize();
        match answer {
            Ok(()) => {
                proof {
                    lemma_one_success(answer);
                }
                Ok(OverlayEngine { renderer: prepared, enabled: false })
            },
            Err(e) => {
                assert(renderer.answers(RenderCall::Initialize, Err(e), &prepared));
                Err(e)
            },
        }
    }

    /// Whether the engine draws.
    pub fn is_enabled(&self) -> (b: bool)
        ensures
            b == self.enabled,
    {
        self.enabled
    }

    /// Enables the engine. An enabled engine is left as it is; otherwise the
    /// renderer is started, and the engine is enabled if that succeeds.
    pub fn start(&mut self) -> (r: Result<(), AutomationError>)
        ensures
            old(self).starts(r, *final(self)),
            old(self).enabled ==> r is Ok && *final(self) == *old(self),
            r is Ok <==> final(self).enabled,
    {
        if self.enabled {
            return Ok(());
        }
        let answer = self.renderer.start();
        match answer {
            Ok(()) => {
                proof {
                    lemma_one_success(answer);
                }
                self.enabled = true;
                Ok(())
            },
            Err(e) => Err(e),
        }
    }

    /// Disables the engine. A disabled engine is left as it is; otherwise
    /// the renderer is stopped, and the engine is disabled if that succeeds.
    pub fn stop(&mut self) -> (r: Result<(), AutomationError>)
        ensures
            old(self).stops(r, *final(self)),
            !old(self).enabled ==> r is Ok && *final(self) == *old(self),
            r is Ok <==> !final(self).enabled,
    {
        if !self.enabled {
            return Ok(());
        }
        let answer = self.renderer.stop();
        match answer {
            Ok(()) => {
                proof {
                    lemma_one_success(answer);
                }
                self.enabled = false;
                Ok(())
            },
            Err(e) => Err(e),
        }
    }

    /// Stops an enabled engine and starts a disabled one, as `stop` and
    /// `start` do. Returns whether the engine is enabled afterwards, or the
    /// renderer's error; on failure the engine is enabled as it was before.
    pub fn toggle(&mut self) -> (r: Result<bool, AutomationError>)
        ensures
            if old(self).enabled {
                old(self).stops(switched(r), *final(self))
            } else {
                old(self).starts(switched(r), *final(self))
            },
            r is Ok ==> r.unwrap() == final(self).enabled && final(self).enabled != old(
                self,
            ).enabled,
            r is Err ==> final(self).enabled == old(self).enabled,
    {
        let answer = if self.enabled {
            self.stop()
        } else {
            self.start()
        };
        match answer {
            Ok(()) => {
                proof {
                    lemma_one_success(answer);
                }
                Ok(self.enabled)
            },
            Err(e) => Err(e),
        }
    }

    /// Replaces the drawings by a highlight around each element that has
    /// bounds, in the given style or in the default one. A disabled engine
    /// does nothing and succeeds. An enabled one has its renderer clear,
    /// draw the highlights in the elements' order, and update; the first
    /// error of the renderer ends the call and is returned. The effect is
    /// not used.
    pub fn highlight_elements(
        &mut self,
        elements: &[UIElement],
        style: Option<HighlightStyle>,
        effect: Option<HighlightEffect>,
    ) -> (r: Result<(), AutomationError>)
        ensures
            old(self).highlights(
                highlight_rects(elements@),
                style_or_default(style),
                r,
                *final(self),
            ),
            final(self).enabled == old(self).enabled,
            !old(self).enabled ==> r is Ok && *final(self) == *old(self),
    {
        if !self.enabled {
            return Ok(());
        }
        let ghost first = self.renderer;
        let ghost look = style_or_default(style);
        let answer = self.renderer.clear();
        match answer {
            Ok(()) => {
                proof {
                    lemma_one_success(answer);
                }
            },
            Err(e) => {
                assert(first.answers(RenderCall::Clear, Err(e), &self.renderer));
                return Err(e);
            },
        }
        let ghost cleared = self.renderer;
        let chosen = highlight_style(style);
        let rects = rects_to_highlight(elements);
        assert(first.answers(RenderCall::Clear, Ok(()), &cleared));
        let mut k: usize = 0;
        while k < rects.len()
            invariant
                k <= rects@.len(),
                old(self).enabled,
                self.enabled,
                chosen@ == look,
                look == style_or_default(style),
                rects@ == highlight_rects(elements@),
                first == old(self).renderer,
                forall|rr: Result<(), AutomationError>, aa: R| #[trigger]
                    draws_from(self.renderer, rects@, look, k as int, rr, aa) ==> highlights(
                        first,
                        rects@,
                        look,
                        rr,
                        aa,
                    ),
            decreases rects@.len() - k,
        {
            let ghost before = self.renderer;
            let drawn = self.renderer.draw_highlight(rects[k], chosen.clone());
            proof {
                assert(before.answers(
                    RenderCall::DrawHighlight(rects@[k as int], look),
                    drawn,
                    &self.renderer,
                ));
            }
            match drawn {
                Ok(()) => {
                    proof {
                        lemma_one_success(drawn);
                        assert forall|rr: Result<(), AutomationError>, aa: R| #[trigger]
                            draws_from(self.renderer, rects@, look, k + 1, rr, aa) implies highlights(
                            first,
                            rects@,
                            look,
                            rr,
                            aa,
                        ) by {
                            assert(draws_from(before, rects@, look, k as int, rr, aa));
                        }
                    }
                },
                Err(e) => {
                    proof {
                        assert(draws_from(before, rects@, look, k as int, Err(e), self.renderer));
                    }
                    return Err(e);
                },
            }
            k += 1;
        }
        let ghost before = self.renderer;
        let r = self.renderer.update();
        proof {
            assert(draws_from(before, rects@, look, k as int, r, self.renderer));
        }
        r
    }

    /// Shows a message for `duration_ms` milliseconds, in the given style
    /// or as `Info`. A disabled engine does nothing and succeeds; an enabled
    /// one hands the request to its renderer and returns its answer.
    pub fn show_popup(&mut self, message: &str, duration_ms: u64, style: Option<PopupStyle>) -> (r:
        Result<(), AutomationError>)
        ensures
            old(self).asks(
                RenderCall::ShowPopup(message@, duration_ms, popup_or_default(style)),
                r,
                *final(self),
            ),
            final(self).enabled == old(self).enabled,
            !old(self).enabled ==> r is Ok && *final(self) == *old(self),
    {
        if !self.enabled {
            return Ok(());
        }
        self.renderer.show_popup(message, duration_ms, popup_style(style))
    }

    /// Removes all drawings. A disabled engine does nothing and succeeds;
    /// an enabled one hands the request to its renderer and returns its
    /// answer.
    pub fn clear(&mut self) -> (r: Result<(), AutomationError>)
        ensures
            old(self).asks(RenderCall::Clear, r, *final(self)),
            final(self).enabled == old(self).enabled,
            !old(self).enabled ==> r is Ok && *final(self) == *old(self),
    {
        if !self.enabled {
            return Ok(());
        }
        self.renderer.clear()
    }
}

} // verus!
