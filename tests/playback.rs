use msfz::chunk::Chunk;
use msfz::pad::pad_vec;
use msfz::voice::{Mailbox, Msg, Voice};

#[test]
fn pad_vec_adds_remainder() {
    let mut v: Vec<i32> = vec![1, 2, 3, 4, 5];
    pad_vec(&mut v, 4);
    assert_eq!(v, vec![1, 2, 3, 4, 5, 0]);
}

#[test]
fn pad_vec_exact_multiple_unchanged() {
    let mut v: Vec<f64> = vec![0.5; 8];
    pad_vec(&mut v, 4);
    assert_eq!(v.len(), 8);
    let mut e: Vec<u8> = Vec::new();
    pad_vec(&mut e, 3);
    assert!(e.is_empty());
}

#[test]
fn feed_copies_then_advances() {
    let mut c = Chunk::new(vec![1.0f32, 2.0, 3.0, 4.0, 5.0]);
    let mut out = [9.0f32; 2];
    c.feed(&mut out, 0.0);
    assert_eq!(out, [1.0, 2.0]);
    assert_eq!(c.position(), 2);
    c.feed(&mut out, 0.0);
    assert_eq!(out, [3.0, 4.0]);
    assert_eq!(c.position(), 4);
}

#[test]
fn feed_zero_fills_past_end_of_wave() {
    let mut c = Chunk::new(vec![1.0f32, 2.0, 3.0]);
    let mut out = [7.0f32; 4];
    c.feed(&mut out, 0.0);
    assert_eq!(out, [1.0, 2.0, 3.0, 0.0]);
    assert_eq!(c.position(), 3);
    assert!(c.is_exhausted());
}

#[test]
fn feed_after_exhaustion_writes_silence() {
    let mut c = Chunk::new(vec![0.25f32, 0.5]);
    let mut out = [0.0f32; 2];
    c.feed(&mut out, 0.0);
    assert_eq!(out, [0.25, 0.5]);
    let mut stale = [0.9f32, -0.3, 0.7];
    c.feed(&mut stale, 0.0);
    assert_eq!(stale, [0.0, 0.0, 0.0]);
    assert_eq!(c.position(), 2);
}

#[test]
fn feed_empty_chunk_is_silent() {
    let mut c: Chunk<f32> = Chunk::new(Vec::new());
    let mut out = [1.0f32; 3];
    c.feed(&mut out, 0.0);
    assert_eq!(out, [0.0; 3]);
    assert_eq!(c.len(), 0);
}

#[test]
fn mailbox_latest_wins() {
    let mut m: Mailbox<u32> = Mailbox::new();
    assert_eq!(m.take(), None);
    m.post(1);
    m.post(2);
    assert_eq!(m.take(), Some(2));
    assert_eq!(m.take(), None);
}

#[test]
fn idle_voice_renders_silence() {
    let mut v: Voice<f32> = Voice::new();
    let mut out = [0.4f32; 4];
    v.render(None, &mut out, 0.0);
    assert_eq!(out, [0.0; 4]);
    assert!(v.is_idle());
}

#[test]
fn note_on_then_off_returns_to_silence() {
    let mut mailbox: Mailbox<Msg<f32>> = Mailbox::new();
    let mut v: Voice<f32> = Voice::new();
    let mut out = [0.0f32; 2];

    mailbox.post(Msg::Play(Chunk::new(vec![0.1, 0.2, 0.3, 0.4, 0.5, 0.6])));
    v.render(mailbox.take(), &mut out, 0.0);
    assert_eq!(out, [0.1, 0.2]);

    mailbox.post(Msg::Stop);
    v.render(mailbox.take(), &mut out, 0.0);
    assert_eq!(out, [0.0, 0.0]);
    assert!(v.is_idle());

    for _ in 0..3 {
        out = [0.8, 0.8];
        v.render(mailbox.take(), &mut out, 0.0);
        assert_eq!(out, [0.0, 0.0]);
    }
}

#[test]
fn note_on_immediately_off_never_plays() {
    let mut mailbox: Mailbox<Msg<f32>> = Mailbox::new();
    let mut v: Voice<f32> = Voice::new();
    mailbox.post(Msg::Play(Chunk::new(vec![1.0; 16])));
    mailbox.post(Msg::Stop);
    let mut out = [0.5f32; 4];
    v.render(mailbox.take(), &mut out, 0.0);
    assert_eq!(out, [0.0; 4]);
    assert!(v.is_idle());
}

#[test]
fn second_note_replaces_first() {
    let mut mailbox: Mailbox<Msg<f32>> = Mailbox::new();
    let mut v: Voice<f32> = Voice::new();
    let mut out = [0.0f32; 3];

    mailbox.post(Msg::Play(Chunk::new(vec![1.0; 8])));
    mailbox.post(Msg::Play(Chunk::new(vec![2.0, 3.0, 4.0, 5.0])));
    v.render(mailbox.take(), &mut out, 0.0);
    assert_eq!(out, [2.0, 3.0, 4.0]);
    v.render(mailbox.take(), &mut out, 0.0);
    assert_eq!(out, [5.0, 0.0, 0.0]);
}

#[test]
fn play_while_playing_cuts_previous_chunk() {
    let mut v: Voice<f32> = Voice::new();
    let mut out = [0.0f32; 2];
    v.render(Some(Msg::Play(Chunk::new(vec![1.0; 10]))), &mut out, 0.0);
    assert_eq!(out, [1.0, 1.0]);
    v.render(Some(Msg::Play(Chunk::new(vec![-1.0, -2.0]))), &mut out, 0.0);
    assert_eq!(out, [-1.0, -2.0]);
    v.render(None, &mut out, 0.0);
    assert_eq!(out, [0.0, 0.0]);
}

#[test]
fn chunk_runs_out_without_stop() {
    let mut v: Voice<f32> = Voice::new();
    let mut out = [0.0f32; 4];
    v.render(Some(Msg::Play(Chunk::new(vec![0.5; 10]))), &mut out, 0.0);
    v.render(None, &mut out, 0.0);
    v.render(None, &mut out, 0.0);
    assert_eq!(out, [0.5, 0.5, 0.0, 0.0]);
    out = [0.3; 4];
    v.render(None, &mut out, 0.0);
    assert_eq!(out, [0.0; 4]);
}
