//! The life of the application's configuration: found or not, loaded,
//! shown once, replaced on a change of its file, kept when the replacement
//! fails.
use vstd::prelude::*;

verus! {

/// What reaches the event loop from outside the window system.
#[derive(Debug)]
pub enum UserEvent {
    /// A file changed; the path is canonical.
    FileChanged(String),
}

/// The format of the configuration file in use.
#[derive(Clone, Copy, PartialEq, Eq, Structural, Debug)]
pub enum ConfigKind {
    Ron,
    Json,
}

/// Which configuration file to load, given which of the two exist: the RON
/// file where it exists, else the JSON file, else none.
pub fn choose_config(ron_exists: bool, json_exists: bool) -> (kind: Option<ConfigKind>)
    ensures
        kind == (if ron_exists {
            Some(ConfigKind::Ron)
        } else if json_exists {
            Some(ConfigKind::Json)
        } else {
            None
        }),
{
    if ron_exists {
        Some(ConfigKind::Ron)
    } else if json_exists {
        Some(ConfigKind::Json)
    } else {
        None
    }
}

/// Both files exist and one of them is ignored: worth a warning.
pub fn config_is_ambiguous(ron_exists: bool, json_exists: bool) -> (ambiguous: bool)
    ensures
        ambiguous == (ron_exists && json_exists),
{
    json_exists && ron_exists
}

/// What the event loop does once a frame is drawn.
#[derive(Clone, Copy, PartialEq, Eq, Structural, Debug)]
pub enum Flow {
    Exit,
    Poll,
    Wait,
}

/// Leave when the run is over; else draw again at once where a repaint is
/// due, and wait for the next event where none is.
pub fn next_flow(should_run: bool, needs_repaint: bool) -> (flow: Flow)
    ensures
        flow == (if !should_run {
            Flow::Exit
        } else if needs_repaint {
            Flow::Poll
        } else {
            Flow::Wait
        }),
{
    if !should_run {
        Flow::Exit
    } else if needs_repaint {
        Flow::Poll
    } else {
        Flow::Wait
    }
}

/// The configuration, `C`, at each stage of its life.
pub enum State<C> {
    /// No config could be found or loaded.
    NotLoaded { error: String },
    /// Config loaded without trouble but could still fail on its first frame.
    /// `old_config` is the config it replaces, kept to fall back on.
    FirstFrame { old_config: Option<C>, config: C, kind: ConfigKind },
    /// Config loaded without trouble and rendered without an error.
    Loaded { config: C, kind: ConfigKind },
    /// Old config still valid but the new config met an error.
    ReloadError { config: C, error: String, kind: ConfigKind },
}

impl<C> State<C> {
    /// The configuration to draw and to hand events to.
    pub open spec fn active(self) -> Option<C> {
        match self {
            State::Loaded { config, .. } => Some(config),
            State::FirstFrame { config, .. } => Some(config),
            State::ReloadError { config, .. } => Some(config),
            State::NotLoaded { .. } => None,
        }
    }

    /// The configuration that stays in use if a replacement fails.
    pub open spec fn fallback(self) -> Option<C> {
        match self {
            State::Loaded { config, .. } => Some(config),
            State::ReloadError { config, .. } => Some(config),
            State::FirstFrame { old_config, .. } => old_config,
            State::NotLoaded { .. } => None,
        }
    }

    /// The format of the file to load again on a change; `None` where no file
    /// was ever loaded and the choice is still to be made.
    pub open spec fn kind(self) -> Option<ConfigKind> {
        match self {
            State::Loaded { kind, .. } => Some(kind),
            State::ReloadError { kind, .. } => Some(kind),
            State::FirstFrame { kind, .. } => Some(kind),
            State::NotLoaded { .. } => None,
        }
    }

    /// This state is `before` but for the configuration to draw: stage,
    /// error and the configuration kept behind a first frame are the same.
    pub open spec fn fallback_kept(self, before: Self) -> bool {
        match (self, before) {
            (State::Loaded { .. }, State::Loaded { .. }) => true,
            (
                State::FirstFrame { old_config, .. },
                State::FirstFrame { old_config: kept, .. },
            ) => old_config == kept,
            (State::ReloadError { error, .. }, State::ReloadError { error: shown, .. }) => error
                == shown,
            (State::NotLoaded { error }, State::NotLoaded { error: shown }) => error == shown,
            _ => false,
        }
    }

    /// The error on show.
    pub open spec fn error(self) -> Option<Seq<char>> {
        match self {
            State::NotLoaded { error } => Some(error@),
            State::ReloadError { error, .. } => Some(error@),
            _ => None,
        }
    }

    /// The state after an attempt to load the configuration of format `kind`
    /// ended in `loaded`: a new configuration awaits its first frame, with
    /// the fallback of this state as its fallback; a failure leaves the
    /// fallback in use, with the error on show.
    pub open spec fn after_load(self, kind: ConfigKind, loaded: Result<C, String>) -> Self {
        match loaded {
            Ok(config) => State::FirstFrame { old_config: self.fallback(), config, kind },
            Err(error) => match self.fallback() {
                Some(config) => State::ReloadError { config, error, kind },
                None => State::NotLoaded { error },
            },
        }
    }

    /// The state after the first frame of a new configuration ended in
    /// `rendered`: the configuration is in use where the frame was drawn, and
    /// gives way to its fallback where it was not. Any other state stays.
    pub open spec fn after_frame(self, rendered: Result<bool, String>) -> Self {
        match self {
            State::FirstFrame { old_config, config, kind } => match rendered {
                Ok(_) => State::Loaded { config, kind },
                Err(error) => match old_config {
                    Some(config) => State::ReloadError { config, error, kind },
                    None => State::NotLoaded { error },
                },
            },
            other => other,
        }
    }

    pub fn active_config(&self) -> (config: Option<&C>)
        ensures
            match config {
                Some(c) => self.active() == Some(*c),
                None => self.active() is None,
            },
    {
        match self {
            State::Loaded { config, .. } => Some(config),
            State::FirstFrame { config, .. } => Some(config),
            State::ReloadError { config, .. } => Some(config),
            State::NotLoaded { .. } => None,
        }
    }

    pub fn active_config_mut(&mut self) -> (config: Option<&mut C>)
        ensures
            match config {
                Some(c) => old(self).active() == Some(*c) && final(self).active() == Some(
                    *final(c),
                ) && final(self).kind() == old(self).kind() && final(self).fallback_kept(
                    *old(self),
                ),
                None => old(self).active() is None && *final(self) == *old(self),
            },
    {
        match self {
            State::Loaded { config, .. } => Some(config),
            State::FirstFrame { config, .. } => Some(config),
            State::ReloadError { config, .. } => Some(config),
            State::NotLoaded { .. } => None,
        }
    }

    /// The format of the file to load again, as `kind` says.
    pub fn reload_kind(&self) -> (kind: Option<ConfigKind>)
        ensures
            kind == self.kind(),
    {
        match self {
            State::Loaded { kind, .. } => Some(*kind),
            State::FirstFrame { kind, .. } => Some(*kind),
            State::ReloadError { kind, .. } => Some(*kind),
            State::NotLoaded { .. } => None,
        }
    }

    /// This state awaits its first frame.
    pub fn is_first_frame(&self) -> (first: bool)
        ensures
            first == (*self is FirstFrame),
    {
        match self {
            State::FirstFrame { .. } => true,
            _ => false,
        }
    }

    /// Takes the state out and leaves `NotLoaded` with an empty error behind.
    pub fn take(&mut self) -> (taken: Self)
        ensures
            taken == *old(self),
            *final(self) matches State::NotLoaded { error } && error@ == Seq::<char>::empty(),
    {
        let mut taken = State::NotLoaded { error: String::new() };
        core::mem::swap(&mut taken, self);
        taken
    }

    /// The state at start, or after a change while nothing was loaded: the
    /// outcome of the first load, if a file was there to load.
    pub fn initial(loaded: Option<(ConfigKind, Result<C, String>)>, missing: String) -> (s: Self)
        ensures
            s == (match loaded {
                Some((kind, Ok(config))) => State::FirstFrame { old_config: None, config, kind },
                Some((_, Err(error))) => State::NotLoaded { error },
                None => State::NotLoaded { error: missing },
            }),
    {
        match loaded {
            Some((kind, Ok(config))) => State::FirstFrame { old_config: None, config, kind },
            Some((_, Err(error))) => State::NotLoaded { error },
            None => State::NotLoaded { error: missing },
        }
    }

    /// A file changed and the configuration was loaded again, as `after_load`
    /// says.
    pub fn file_changed(self, kind: ConfigKind, loaded: Result<C, String>) -> (s: Self)
        ensures
            s == self.after_load(kind, loaded),
    {
        let fallback = match self {
            State::Loaded { config, .. } => Some(config),
            State::ReloadError { config, .. } => Some(config),
            State::FirstFrame { old_config, .. } => old_config,
            State::NotLoaded { .. } => None,
        };
        match loaded {
            Ok(config) => State::FirstFrame { old_config: fallback, config, kind },
            Err(error) => match fallback {
                Some(config) => State::ReloadError { config, error, kind },
                None => State::NotLoaded { error },
            },
        }
    }

    /// A frame was drawn, or not, as `after_frame` says.
    pub fn frame_drawn(self, rendered: Result<bool, String>) -> (s: Self)
        ensures
            s == self.after_frame(rendered),
    {
        match self {
            State::FirstFrame { old_config, config, kind } => match rendered {
                Ok(_) => State::Loaded { config, kind },
                Err(error) => match old_config {
                    Some(config) => State::ReloadError { config, error, kind },
                    None => State::NotLoaded { error },
                },
            },
            other => other,
        }
    }
}

/// A failed reload never costs the configuration in use: whatever was active
/// and had been drawn stays active.
pub proof fn lemma_failed_load_keeps_config<C>(s: State<C>, kind: ConfigKind, error: String)
    requires
        s is Loaded || s is ReloadError,
    ensures
        s.after_load(kind, Err(error)).active() == s.active(),
        s.after_load(kind, Err(error)).error() == Some(error@),
{
}

/// A new configuration that cannot draw its first frame gives way to the one
/// it replaced.
pub proof fn lemma_failed_frame_falls_back<C>(
    s: State<C>,
    kind: ConfigKind,
    config: C,
    error: String,
)
    requires
        s is Loaded || s is ReloadError,
    ensures
        s.after_load(kind, Ok(config)).active() == Some(config),
        s.after_load(kind, Ok(config)).after_frame(Err(error)).active() == s.active(),
        s.after_load(kind, Ok(config)).after_frame(Ok(false)).active() == Some(config),
{
}

} // verus!
