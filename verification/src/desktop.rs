//! The entry point of UI automation: one engine, and an overlay that may be
//! absent.

use vstd::prelude::*;
use crate::drawing::{
    highlight_rects,
    popup_or_default,
    style_or_default,
    switched,
    HighlightEffect,
    HighlightStyle,
    OverlayEngine,
    OverlayRenderer,
    PopupStyle,
    RenderCall,
    StyleView,
};
use crate::element::Rect;
use crate::element::UIElement;
use crate::errors::AutomationError;
use crate::locator::{chain_view, Locator, DEFAULT_TIMEOUT_MS};
use crate::platforms::{slice_text, AccessibilityEngine, DesktopAction, ElementQuery};
use crate::selector::parse_selector;

verus! {

/// What a command printed and how it ended.
#[derive(Debug)]
pub struct CommandOutput {
    pub exit_status: Option<i32>,
    pub stdout: String,
    pub stderr: String,
}

/// A captured image.
#[derive(Debug, Clone)]
pub struct ScreenshotResult {
    /// The pixels, as the platform encodes them.
    pub image_data: Vec<u8>,
    /// The width of the image in pixels.
    pub width: u32,
    /// The height of the image in pixels.
    pub height: u32,
}

/// The automation session: the platform's engine, and the overlay if one
/// could be set up.
pub struct Desktop<E: AccessibilityEngine, R: OverlayRenderer> {
    pub engine: E,
    pub visualizer: Option<OverlayEngine<R>>,
}

impl<E: AccessibilityEngine, R: OverlayRenderer> Desktop<E, R> {
    /// Whether the session has an overlay and the overlay draws.
    pub open spec fn draws(&self) -> bool {
        self.visualizer is Some && self.visualizer.unwrap().enabled
    }

    /// What a drawing request does to a session: nothing to one without
    /// overlay, with success; one with an overlay hands the request to it,
    /// and returns what the overlay returns. The engine is left alone.
    pub open spec fn overlay_asks(
        self,
        call: RenderCall,
        r: Result<(), AutomationError>,
        after: Self,
    ) -> bool {
        &&& after.engine == self.engine
        &&& match self.visualizer {
            Some(overlay) => after.visualizer is Some && overlay.asks(
                call,
                r,
                after.visualizer.unwrap(),
            ),
            None => r is Ok && after == self,
        }
    }

    /// What highlighting does to a session: nothing to one without overlay,
    /// with success; one with an overlay has it highlight `rects` in
    /// `style`, and returns what the overlay returns. The engine is left
    /// alone.
    pub open spec fn overlay_highlights(
        self,
        rects: Seq<Rect>,
        style: StyleView,
        r: Result<(), AutomationError>,
        after: Self,
    ) -> bool {
        &&& after.engine == self.engine
        &&& match self.visualizer {
            Some(overlay) => after.visualizer is Some && overlay.highlights(
                rects,
                style,
                r,
                after.visualizer.unwrap(),
            ),
            None => r is Ok && after == self,
        }
    }

    /// A session over `engine`. The overlay is set up over `renderer` where
    /// one is given: the renderer is asked to prepare itself, and one that
    /// cannot leaves the session without overlay, which is no failure.
    pub fn new(engine: E, renderer: Option<R>) -> (d: Desktop<E, R>)
        ensures
            d.engine == engine,
            renderer is None ==> d.visualizer is None,
            renderer is Some ==> match d.visualizer {
                Some(overlay) => renderer.unwrap().answers(
                    RenderCall::Initialize,
                    Ok(()),
                    &overlay.renderer,
                ),
                None => exists|e: AutomationError, after: R| #[trigger]
                    renderer.unwrap().answers(RenderCall::Initialize, Err(e), &after),
            },
            !d.draws(),
    {
        let visualizer = match renderer {
            Some(r) => match OverlayEngine::new(r) {
                Ok(v) => Some(v),
                Err(_) => None,
            },
            None => None,
        };
        Desktop { engine, visualizer }
    }

    /// The desktop's root element, as the engine gives it.
    pub fn root(&self) -> (r: UIElement)
        ensures
            self.engine.gives_root(r),
    {
        self.engine.get_root_element()
    }

    /// A locator for the selector that `selector` denotes, over the whole
    /// desktop. The tree is not touched. Text that is not in the grammar
    /// gives a locator whose every retrieval fails with `InvalidSelector`.
    pub fn locator<'a>(&'a self, selector: &str) -> (l: Locator<'a, E>)
        ensures
            l.engine == &self.engine,
            l.root is None,
            l.timeout_ms == DEFAULT_TIMEOUT_MS,
            l.description@ == selector@,
            match parse_selector(selector@) {
                Some(conditions) => l.invalid is None && chain_view(l.chain@) == seq![conditions],
                None => l.invalid is Some && l.invalid.unwrap()@ == selector@ && l.chain@.len()
                    == 0,
            },
    {
        Locator::new(&self.engine, selector)
    }

    /// The element with keyboard focus, as the engine gives it.
    pub fn focused_element(&self) -> (r: Result<UIElement, AutomationError>)
        ensures
            self.engine.gives_element(ElementQuery::Focused, r),
    {
        self.engine.get_focused_element()
    }

    /// The running applications, as the engine gives them.
    pub fn applications(&self) -> (r: Result<Vec<UIElement>, AutomationError>)
        ensures
            self.engine.gives_applications(r),
    {
        self.engine.get_applications()
    }

    /// The application with the given name, as the engine gives it.
    pub fn application(&self, name: &str) -> (r: Result<UIElement, AutomationError>)
        ensures
            self.engine.gives_element(ElementQuery::Application(name@), r),
    {
        self.engine.get_application_by_name(name)
    }

    /// Has the engine start an application.
    pub fn open_application(&self, app_name: &str) -> (r: Result<(), AutomationError>)
        ensures
            self.engine.performs(DesktopAction::OpenApplication(app_name@), r),
    {
        self.engine.open_application(app_name)
    }

    /// Has the engine bring an application to the foreground.
    pub fn activate_application(&self, app_name: &str) -> (r: Result<(), AutomationError>)
        ensures
            self.engine.performs(DesktopAction::ActivateApplication(app_name@), r),
    {
        self.engine.activate_application(app_name)
    }

    /// Has the engine open an address, in the named browser or in the
    /// default one.
    pub fn open_url(&self, url: &str, browser: Option<&str>) -> (r: Result<(), AutomationError>)
        ensures
            self.engine.performs(DesktopAction::OpenUrl(url@, slice_text(browser)), r),
    {
        self.engine.open_url(url, browser)
    }

    /// Has the engine open a file.
    pub fn open_file(&self, file_path: &str) -> (r: Result<(), AutomationError>)
        ensures
            self.engine.performs(DesktopAction::OpenFile(file_path@), r),
    {
        self.engine.open_file(file_path)
    }

    /// Has the engine bring the browser window with the given title to the
    /// foreground.
    pub fn activate_browser_window_by_title(&self, title: &str) -> (r: Result<
        (),
        AutomationError,
    >)
        ensures
            self.engine.performs(DesktopAction::ActivateBrowserWindow(title@), r),
    {
        self.engine.activate_browser_window_by_title(title)
    }

    /// Highlights the elements on screen. Without an overlay that draws,
    /// nothing happens and the call succeeds. An overlay that draws has its
    /// renderer clear, draw a highlight around each element that has bounds,
    /// in the given style or the default one, and update; the call returns
    /// the renderer's first error, or its answer to the update.
    pub fn highlight_elements(
        &mut self,
        elements: &[UIElement],
        style: Option<HighlightStyle>,
        effect: Option<HighlightEffect>,
    ) -> (r: Result<(), AutomationError>)
        ensures
            old(self).overlay_highlights(
                highlight_rects(elements@),
                style_or_default(style),
                r,
                *final(self),
            ),
            final(self).engine == old(self).engine,
            final(self).draws() == old(self).draws(),
            !old(self).draws() ==> r is Ok && *final(self) == *old(self),
    {
        match &mut self.visualizer {
            Some(visualizer) => visualizer.highlight_elements(elements, style, effect),
            None => Ok(()),
        }
    }

    /// Shows a message on screen for `duration_ms` milliseconds, in the
    /// given style or as `Info`. Without an overlay that draws, nothing
    /// happens and the call succeeds. An overlay that draws hands the
    /// request to its renderer, and the call returns the renderer's answer.
    pub fn show_popup(&mut self, message: &str, duration_ms: u64, style: Option<PopupStyle>) -> (r:
        Result<(), AutomationError>)
        ensures
            old(self).overlay_asks(
                RenderCall::ShowPopup(message@, duration_ms, popup_or_default(style)),
                r,
                *final(self),
            ),
            final(self).engine == old(self).engine,
            final(self).draws() == old(self).draws(),
            !old(self).draws() ==> r is Ok && *final(self) == *old(self),
    {
        match &mut self.visualizer {
            Some(visualizer) => visualizer.show_popup(message, duration_ms, style),
            None => Ok(()),
        }
    }

    /// Enables the overlay. Without an overlay nothing happens and the call
    /// succeeds; with one, it succeeds exactly if the overlay draws
    /// afterwards. An overlay that does not draw yet asks its renderer to
    /// start, and the call returns the renderer's answer.
    pub fn start_visualization(&mut self) -> (r: Result<(), AutomationError>)
        ensures
            match old(self).visualizer {
                Some(overlay) => final(self).visualizer is Some && overlay.starts(
                    r,
                    final(self).visualizer.unwrap(),
                ),
                None => r is Ok,
            },
            final(self).engine == old(self).engine,
            old(self).visualizer is None ==> r is Ok && *final(self) == *old(self),
            old(self).draws() ==> r is Ok && *final(self) == *old(self),
            old(self).visualizer is Some ==> (r is Ok <==> final(self).draws()),
    {
        match &mut self.visualizer {
            Some(visualizer) => visualizer.start(),
            None => Ok(()),
        }
    }

    /// Disables the overlay. Without an overlay that draws, nothing happens
    /// and the call succeeds; otherwise it succeeds exactly if the overlay no
    /// longer draws. An overlay that draws asks its renderer to stop, and the
    /// call returns the renderer's answer.
    pub fn stop_visualization(&mut self) -> (r: Result<(), AutomationError>)
        ensures
            match old(self).visualizer {
                Some(overlay) => final(self).visualizer is Some && overlay.stops(
                    r,
                    final(self).visualizer.unwrap(),
                ),
                None => r is Ok,
            },
            final(self).engine == old(self).engine,
            !old(self).draws() ==> r is Ok && *final(self) == *old(self),
            r is Ok <==> !final(self).draws(),
    {
        match &mut self.visualizer {
            Some(visualizer) => visualizer.stop(),
            None => Ok(()),
        }
    }

    /// Switches the overlay on or off, as stopping and starting do, and
    /// returns whether it draws afterwards, or the renderer's error. Without
    /// an overlay the answer is `false`. On failure the overlay draws as
    /// before.
    pub fn toggle_visualization(&mut self) -> (r: Result<bool, AutomationError>)
        ensures
            match old(self).visualizer {
                Some(overlay) => final(self).visualizer is Some && if overlay.enabled {
                    overlay.stops(switched(r), final(self).visualizer.unwrap())
                } else {
                    overlay.starts(switched(r), final(self).visualizer.unwrap())
                },
                None => r is Ok,
            },
            final(self).engine == old(self).engine,
            old(self).visualizer is None ==> r == Ok::<bool, AutomationError>(false) && *final(self)
                == *old(self),
            r is Ok ==> r.unwrap() == final(self).draws(),
            r is Ok && old(self).visualizer is Some ==> final(self).draws() != old(self).draws(),
            r is Err ==> final(self).draws() == old(self).draws(),
    {
        match &mut self.visualizer {
            Some(visualizer) => visualizer.toggle(),
            None => Ok(false),
        }
    }

    /// Removes all drawings. Without an overlay that draws, nothing happens
    /// and the call succeeds. An overlay that draws hands the request to its
    /// renderer, and the call returns the renderer's answer.
    pub fn clear_visualizations(&mut self) -> (r: Result<(), AutomationError>)
        ensures
            old(self).overlay_asks(RenderCall::Clear, r, *final(self)),
            final(self).engine == old(self).engine,
            final(self).draws() == old(self).draws(),
            !old(self).draws() ==> r is Ok && *final(self) == *old(self),
    {
        match &mut self.visualizer {
            Some(visualizer) => visualizer.clear(),
            None => Ok(()),
        }
    }
}

} // verus!
