use pov_display::fsm::{Event, PovState};
use pov_display::pool::AnimationPool;
use pov_display::web::{append_decimal, begin_upload, finish_upload, ApiRoute, ApiRouter, WebService};
use pov_display::wire::bake_frames;

#[test]
fn status_json() {
    let mut state = PovState::new();
    let pool = AnimationPool::new();
    assert_eq!(
        WebService::json_status(&state, &pool),
        r#"{"state":"idle","is_running":false,"is_loading":false,"animation_count":0,"pages":0}"#
    );
    state.handle(&Event::Start);
    assert_eq!(
        ApiRouter::handle_get(&ApiRoute::Status, &state, &pool),
        r#"{"state":"running","is_running":true,"is_loading":false,"animation_count":0,"pages":0}"#
    );
}

#[test]
fn get_other_routes() {
    let state = PovState::new();
    let pool = AnimationPool::new();
    assert_eq!(ApiRouter::handle_get(&ApiRoute::NotFound, &state, &pool), r#"{"error":"not found"}"#);
    assert_eq!(ApiRouter::handle_get(&ApiRoute::Start, &state, &pool), r#"{"error":"method not allowed"}"#);
}

#[test]
fn post_start_stop() {
    let mut state = PovState::new();
    let mut pool = AnimationPool::new();
    assert_eq!(ApiRouter::handle_post(&ApiRoute::Start, &mut state, &mut pool, None), r#"{"status":"started"}"#);
    assert!(state.is_running());
    assert_eq!(ApiRouter::handle_post(&ApiRoute::Stop, &mut state, &mut pool, None), r#"{"status":"stopped"}"#);
    assert_eq!(state.state_name(), "idle");
    assert_eq!(
        ApiRouter::handle_post(&ApiRoute::Status, &mut state, &mut pool, None),
        r#"{"error":"method not allowed"}"#
    );
}

#[test]
fn post_upload() {
    let mut state = PovState::new();
    let mut pool = AnimationPool::new();
    let mut f = [0u16; 16];
    f[0] = 1;
    let bytes = bake_frames(&[f, f, [0; 16]]);
    assert_eq!(
        ApiRouter::handle_post(&ApiRoute::Upload, &mut state, &mut pool, Some(&bytes)),
        r#"{"status":"ok","pages":1}"#
    );
    assert_eq!(pool.animation_count(), 1);
    assert_eq!(
        WebService::json_status(&state, &pool),
        r#"{"state":"idle","is_running":false,"is_loading":false,"animation_count":1,"pages":1}"#
    );
}

#[test]
fn post_upload_errors() {
    let mut state = PovState::new();
    let mut pool = AnimationPool::new();
    assert_eq!(
        ApiRouter::handle_post(&ApiRoute::Upload, &mut state, &mut pool, None),
        r#"{"status":"error","message":"no body"}"#
    );
    assert_eq!(
        ApiRouter::handle_post(&ApiRoute::Upload, &mut state, &mut pool, Some(&[0])),
        r#"{"status":"error","message":"pages out of range"}"#
    );
    assert_eq!(
        ApiRouter::handle_post(&ApiRoute::Upload, &mut state, &mut pool, Some(&[3])),
        r#"{"status":"error","message":"DeserializeUnexpectedEnd"}"#
    );
    assert!(!pool.has_animation());
}

#[test]
fn decimal_text() {
    let mut s = String::from("n=");
    append_decimal(&mut s, 0);
    append_decimal(&mut s, 1234567890);
    append_decimal(&mut s, u64::MAX);
    assert_eq!(s, format!("n=01234567890{}", u64::MAX));
}

#[test]
fn upload_route_pauses_then_resumes() {
    let mut state = PovState::new();
    let mut pool = AnimationPool::new();
    state.handle(&Event::Start);
    begin_upload(&mut state);
    assert!(state.is_loading());
    let bytes = bake_frames(&[[1u16; 16]]);
    assert_eq!(finish_upload(&mut state, &mut pool, &bytes), r#"{"status":"ok","pages":1}"#);
    assert!(state.is_running());
    assert!(pool.has_animation());
}

#[test]
fn upload_route_in_error_stays_error() {
    let mut state = PovState::new();
    let mut pool = AnimationPool::new();
    state.handle(&Event::Fault);
    begin_upload(&mut state);
    assert_eq!(
        finish_upload(&mut state, &mut pool, &[0x05]),
        r#"{"status":"error","message":"DeserializeUnexpectedEnd"}"#
    );
    assert_eq!(state.state_name(), "error");
}
