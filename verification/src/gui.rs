//! What the user interface remembers between frames, and what its buttons
//! decide.
use vstd::prelude::*;

verus! {

/// What the menu can ask of the application.
#[derive(Clone, Copy, PartialEq, Eq, Structural, Debug)]
pub enum Event {
    Quit,
}

/// The state behind the main window: the error on show, if any, and whether
/// the application goes on.
pub struct Model {
    error: Option<String>,
    run: bool,
}

/// A `Model`, as the contracts see it.
pub struct ModelView {
    pub error: Option<Seq<char>>,
    pub run: bool,
}

impl View for Model {
    type V = ModelView;

    closed spec fn view(&self) -> ModelView {
        ModelView {
            error: match self.error {
                Some(e) => Some(e@),
                None => None,
            },
            run: self.run,
        }
    }
}

impl Model {
    pub fn new() -> (m: Self)
        ensures
            m@ == (ModelView { error: None, run: true }),
    {
        Self { error: None, run: true }
    }

    pub fn should_run(&self) -> (run: bool)
        ensures
            run == self@.run,
    {
        self.run
    }

    pub fn set_error(&mut self, error: Option<String>)
        ensures
            final(self)@.run == old(self)@.run,
            final(self)@.error == (match error {
                Some(e) => Some(e@),
                None => None,
            }),
    {
        self.error = error;
    }

    /// The error on show.
    pub fn error(&self) -> (error: Option<&String>)
        ensures
            match error {
                Some(e) => self@.error == Some(e@),
                None => self@.error is None,
            },
    {
        self.error.as_ref()
    }

    /// What the menu's events do: `Quit` ends the run, and leaves the error
    /// on show.
    pub fn handle(&mut self, event: Event)
        ensures
            final(self)@ == (ModelView { run: false, ..old(self)@ }),
    {
        match event {
            Event::Quit => {
                self.run = false;
            },
        }
    }

    /// The error panel was closed.
    pub fn close_error(&mut self)
        ensures
            final(self)@ == (ModelView { error: None, ..old(self)@ }),
    {
        self.error = None;
    }
}

/// Which windows are open.
pub struct Gui {
    show_uniforms: bool,
}

impl View for Gui {
    type V = bool;

    closed spec fn view(&self) -> bool {
        self.show_uniforms
    }
}

impl Gui {
    pub fn new() -> (g: Self)
        ensures
            !g@,
    {
        Gui { show_uniforms: false }
    }

    /// The uniforms window is open.
    pub fn show_uniforms(&self) -> (open: bool)
        ensures
            open == self@,
    {
        self.show_uniforms
    }

    /// The menu entry that opens and closes the uniforms window was chosen.
    pub fn toggle_uniforms(&mut self)
        ensures
            final(self)@ == !old(self)@,
    {
        self.show_uniforms = !self.show_uniforms;
    }
}

} // verus!
