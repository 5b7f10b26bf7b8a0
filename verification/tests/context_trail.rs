use contextual_error::{ContextMessage, Error};

#[test]
fn fresh_error_renders_empty_trail() {
    let e = Error::new(7u64);
    let out = e.render("7");
    assert_eq!(out, "7\n\nCaused by:\n\n");
}

#[test]
fn fresh_error_keeps_payload() {
    let e = Error::new("disk full");
    assert_eq!(*e.error(), "disk full");
}

#[test]
fn one_message_one_bullet() {
    let e = Error::new(7u64).context("parsing input".to_string(), "main.rs:3".to_string());
    let out = e.render("7");
    assert_eq!(out, "7\n\nCaused by:\n- parsing input (main.rs:3)\n\n");
}

#[test]
fn bullets_newest_first() {
    let e = Error::new("root")
        .context("first".to_string(), "a.rs:1".to_string())
        .context("second".to_string(), "b.rs:2".to_string())
        .context("third".to_string(), "c.rs:3".to_string());
    let out = e.render("\"root\"");
    assert_eq!(
        out,
        "\"root\"\n\nCaused by:\n- third (c.rs:3)\n- second (b.rs:2)\n- first (a.rs:1)\n\n"
    );
}

#[test]
fn chained_attachment_equals_fresh_attachment() {
    // Attaching in two steps leaves the same trail as attaching both
    // messages to a fresh error in the same order.
    let step_one = Error::new(1u8).context("m1".to_string(), "l1".to_string());
    let chained = step_one.context("m2".to_string(), "l2".to_string());
    let fresh = Error::new(1u8)
        .context("m1".to_string(), "l1".to_string())
        .context("m2".to_string(), "l2".to_string());
    assert_eq!(chained.render("1"), fresh.render("1"));
    assert_eq!(*chained.error(), *fresh.error());
}

#[test]
fn context_on_success_is_noop() {
    let r: Result<u32, Error<&str>> = Ok(41);
    let r = r.context("should not appear".to_string(), "x.rs:9".to_string());
    match r {
        Ok(v) => assert_eq!(v, 41),
        Err(_) => panic!("success became a failure"),
    }
}

#[test]
fn context_on_failure_adds_one_entry() {
    let r: Result<u32, Error<&str>> = Err(Error::new("boom"));
    let r = r.context("while saving".to_string(), "save.rs:12".to_string());
    match r {
        Ok(_) => panic!("failure became a success"),
        Err(e) => {
            assert_eq!(*e.error(), "boom");
            assert_eq!(
                e.render("\"boom\""),
                "\"boom\"\n\nCaused by:\n- while saving (save.rs:12)\n\n"
            );
        }
    }
}

#[test]
fn context_on_failure_keeps_earlier_entries() {
    let r: Result<u32, Error<u8>> =
        Err(Error::new(5).context("opening".to_string(), "open.rs:4".to_string()));
    let r = r.context("loading".to_string(), "load.rs:8".to_string());
    match r {
        Ok(_) => panic!("failure became a success"),
        Err(e) => {
            assert_eq!(
                e.render("5"),
                "5\n\nCaused by:\n- loading (load.rs:8)\n- opening (open.rs:4)\n\n"
            );
        }
    }
}

#[test]
fn conversion_to_failure_outcome_matches_direct_construction() {
    let via_from: Result<u32, Error<i32>> = Result::from(Error::new(-4));
    let direct: Result<u32, Error<i32>> = Err(Error::new(-4));
    let e1 = via_from.err().expect("conversion must give a failure");
    let e2 = direct.err().expect("direct construction must give a failure");
    assert_eq!(*e1.error(), *e2.error());
    assert_eq!(e1.render("-4"), e2.render("-4"));
    assert_eq!(e1.render("-4"), "-4\n\nCaused by:\n\n");
}

#[test]
fn distinct_locations_stay_distinct() {
    let e = Error::new(0u8)
        .context("same message".to_string(), "lib.rs:10".to_string())
        .context("same message".to_string(), "lib.rs:20".to_string());
    let out = e.render("0");
    assert_eq!(
        out,
        "0\n\nCaused by:\n- same message (lib.rs:20)\n- same message (lib.rs:10)\n\n"
    );
}

#[test]
fn repeated_call_site_may_repeat_location() {
    let mut e = Error::new(0u8);
    for _ in 0..2 {
        e = e.context("retrying".to_string(), "loop.rs:5".to_string());
    }
    let out = e.render("0");
    assert_eq!(
        out,
        "0\n\nCaused by:\n- retrying (loop.rs:5)\n- retrying (loop.rs:5)\n\n"
    );
}

#[test]
fn empty_message_and_location_render() {
    let e = Error::new(1u8).context(String::new(), String::new());
    let out = e.render("");
    assert_eq!(out, "\n\nCaused by:\n-  ()\n\n");
}

#[test]
fn payload_promotion_matches_new() {
    let promoted: Error<&str> = Error::from("raw cause");
    let fresh = Error::new("raw cause");
    assert_eq!(*promoted.error(), *fresh.error());
    assert_eq!(
        promoted.render("\"raw cause\""),
        fresh.render("\"raw cause\"")
    );
}
