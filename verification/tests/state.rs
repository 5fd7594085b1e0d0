use shader_store::gui::{Event, Gui, Model};
use shader_store::state::{
    choose_config, config_is_ambiguous, next_flow, ConfigKind, Flow, State, UserEvent,
};

fn describe(state: &State<u32>) -> String {
    match state {
        State::NotLoaded { error } => format!("not loaded: {}", error),
        State::FirstFrame { old_config, config, kind } => {
            format!("first frame of {} ({:?}), after {:?}", config, kind, old_config)
        }
        State::Loaded { config, kind } => format!("loaded {} ({:?})", config, kind),
        State::ReloadError { config, error, kind } => {
            format!("kept {} ({:?}): {}", config, kind, error)
        }
    }
}

#[test]
fn the_ron_file_wins() {
    assert_eq!(choose_config(true, true), Some(ConfigKind::Ron));
    assert_eq!(choose_config(true, false), Some(ConfigKind::Ron));
    assert_eq!(choose_config(false, true), Some(ConfigKind::Json));
    assert_eq!(choose_config(false, false), None);
    assert!(config_is_ambiguous(true, true));
    assert!(!config_is_ambiguous(true, false));
    assert!(!config_is_ambiguous(false, true));
    assert!(!config_is_ambiguous(false, false));
}

#[test]
fn the_loop_leaves_polls_or_waits() {
    assert_eq!(next_flow(false, true), Flow::Exit);
    assert_eq!(next_flow(false, false), Flow::Exit);
    assert_eq!(next_flow(true, true), Flow::Poll);
    assert_eq!(next_flow(true, false), Flow::Wait);
}

#[test]
fn the_first_load_decides_the_first_state() {
    let s: State<u32> = State::initial(Some((ConfigKind::Json, Ok(1))), "none".to_string());
    assert_eq!(describe(&s), "first frame of 1 (Json), after None");
    assert!(s.is_first_frame());
    assert_eq!(s.reload_kind(), Some(ConfigKind::Json));
    let s: State<u32> =
        State::initial(Some((ConfigKind::Ron, Err("bad".to_string()))), "none".to_string());
    assert_eq!(describe(&s), "not loaded: bad");
    assert_eq!(s.reload_kind(), None);
    let s: State<u32> = State::initial(None, "none".to_string());
    assert_eq!(describe(&s), "not loaded: none");
    assert_eq!(s.active_config(), None);
}

#[test]
fn a_good_first_frame_puts_the_config_in_use() {
    let s: State<u32> = State::initial(Some((ConfigKind::Ron, Ok(1))), String::new());
    let s = s.frame_drawn(Ok(true));
    assert_eq!(describe(&s), "loaded 1 (Ron)");
    assert_eq!(s.active_config(), Some(&1));
    let s = s.frame_drawn(Err("ignored".to_string()));
    assert_eq!(describe(&s), "loaded 1 (Ron)");
}

#[test]
fn a_bad_first_frame_without_fallback_ends_not_loaded() {
    let s: State<u32> = State::initial(Some((ConfigKind::Ron, Ok(1))), String::new());
    let s = s.frame_drawn(Err("no such uniform".to_string()));
    assert_eq!(describe(&s), "not loaded: no such uniform");
}

#[test]
fn a_reload_waits_for_its_first_frame_and_falls_back() {
    let s: State<u32> = State::Loaded { config: 1, kind: ConfigKind::Ron };
    let s = s.file_changed(ConfigKind::Ron, Ok(2));
    assert_eq!(describe(&s), "first frame of 2 (Ron), after Some(1)");
    assert_eq!(s.active_config(), Some(&2));
    let s = s.frame_drawn(Err("cannot draw".to_string()));
    assert_eq!(describe(&s), "kept 1 (Ron): cannot draw");
    assert_eq!(s.active_config(), Some(&1));
    let s = s.file_changed(ConfigKind::Ron, Ok(3)).frame_drawn(Ok(false));
    assert_eq!(describe(&s), "loaded 3 (Ron)");
}

#[test]
fn a_failed_reload_keeps_the_config_in_use() {
    let s: State<u32> = State::Loaded { config: 1, kind: ConfigKind::Json };
    let s = s.file_changed(ConfigKind::Json, Err("parse error".to_string()));
    assert_eq!(describe(&s), "kept 1 (Json): parse error");
    let s = s.file_changed(ConfigKind::Json, Err("still bad".to_string()));
    assert_eq!(describe(&s), "kept 1 (Json): still bad");
    let s: State<u32> = State::NotLoaded { error: "gone".to_string() };
    let s = s.file_changed(ConfigKind::Json, Err("still gone".to_string()));
    assert_eq!(describe(&s), "not loaded: still gone");
}

#[test]
fn a_change_before_the_first_frame_keeps_the_older_fallback() {
    let s: State<u32> = State::FirstFrame { old_config: Some(1), config: 2, kind: ConfigKind::Ron };
    let again = s.file_changed(ConfigKind::Ron, Ok(3));
    assert_eq!(describe(&again), "first frame of 3 (Ron), after Some(1)");
    let s: State<u32> = State::FirstFrame { old_config: Some(1), config: 2, kind: ConfigKind::Ron };
    let failed = s.file_changed(ConfigKind::Ron, Err("bad".to_string()));
    assert_eq!(describe(&failed), "kept 1 (Ron): bad");
    let s: State<u32> = State::FirstFrame { old_config: None, config: 2, kind: ConfigKind::Ron };
    let failed = s.file_changed(ConfigKind::Ron, Err("bad".to_string()));
    assert_eq!(describe(&failed), "not loaded: bad");
}

#[test]
fn take_leaves_an_empty_state_behind() {
    let mut s: State<u32> = State::Loaded { config: 7, kind: ConfigKind::Ron };
    let taken = s.take();
    assert_eq!(describe(&taken), "loaded 7 (Ron)");
    assert_eq!(describe(&s), "not loaded: ");
}

#[test]
fn user_events_carry_the_path() {
    let UserEvent::FileChanged(path) = UserEvent::FileChanged("/tmp/a.glsl".to_string());
    assert_eq!(path, "/tmp/a.glsl");
}

#[test]
fn the_model_runs_until_quit() {
    let mut model = Model::new();
    assert!(model.should_run());
    assert_eq!(model.error(), None);
    model.set_error(Some("broken shader".to_string()));
    assert_eq!(model.error().map(|e| e.as_str()), Some("broken shader"));
    assert!(model.should_run());
    model.handle(Event::Quit);
    assert!(!model.should_run());
    assert_eq!(model.error().map(|e| e.as_str()), Some("broken shader"));
    model.close_error();
    assert_eq!(model.error(), None);
    assert!(!model.should_run());
    model.set_error(None);
    assert_eq!(model.error(), None);
}

#[test]
fn the_uniforms_window_toggles() {
    let mut gui = Gui::new();
    assert!(!gui.show_uniforms());
    gui.toggle_uniforms();
    assert!(gui.show_uniforms());
    gui.toggle_uniforms();
    assert!(!gui.show_uniforms());
}
