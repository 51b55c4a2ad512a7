use guestkeeper::admission::Decision;
use guestkeeper::respond::{compose, compose_with_date, GuestResponse};
use guestkeeper::unwrap_ext::ExpectExt;

#[test]
fn present_classifies_by_the_present_moment() {
    // An expiry already reached means the guest period is over.
    assert_eq!(GuestResponse::present(100, 100), GuestResponse::AlreadyOver(100));
    assert_eq!(GuestResponse::present(100, 101), GuestResponse::AlreadyOver(100));
    // A later expiry means the requester is still a guest.
    assert_eq!(GuestResponse::present(100, 99), GuestResponse::AlreadyGuest(100));
}

#[test]
fn each_decision_maps_to_its_response() {
    assert_eq!(
        GuestResponse::from_decision(Decision::AlreadyMember),
        GuestResponse::AlreadyHasMember
    );
    assert_eq!(
        GuestResponse::from_decision(Decision::AlreadyGranted { expires_at: 7, expired: true }),
        GuestResponse::AlreadyOver(7)
    );
    assert_eq!(
        GuestResponse::from_decision(Decision::AlreadyGranted { expires_at: 7, expired: false }),
        GuestResponse::AlreadyGuest(7)
    );
    assert_eq!(
        GuestResponse::from_decision(Decision::Granted { expires_at: 7 }),
        GuestResponse::Sucess(7)
    );
    assert_eq!(
        GuestResponse::from_decision(Decision::InternalError),
        GuestResponse::InternalError
    );
}

#[test]
fn composed_bodies_are_exact() {
    let r = compose_with_date(&GuestResponse::Sucess(7), "2020-01-01 00:00:07");
    assert_eq!(r.title, "Guest");
    assert!(r.success);
    assert_eq!(
        r.body,
        "Success! You have been given the guest role. It will expire on 2020-01-01 00:00:07."
    );

    let r = compose_with_date(&GuestResponse::AlreadyOver(7), "d");
    assert!(!r.success);
    assert_eq!(r.body, "Error! Your guest role has expired on d.");

    let r = compose_with_date(&GuestResponse::AlreadyGuest(7), "d");
    assert!(!r.success);
    assert_eq!(r.body, "Error! You already have the guest role. It will expire on d.");

    let r = compose_with_date(&GuestResponse::AlreadyHasMember, "ignored");
    assert!(!r.success);
    assert_eq!(r.body, "Error! You are already a member.");

    let r = compose_with_date(&GuestResponse::InternalError, "ignored");
    assert!(!r.success);
    assert_eq!(
        r.body,
        "An internal error occured while processing the request. Your guest role ha snot been added."
    );
}

#[test]
fn compose_renders_a_local_date_into_the_body() {
    let r = compose(&GuestResponse::Sucess(1_600_000_000));
    assert_eq!(r.title, "Guest");
    assert!(r.success);
    assert!(r.body.starts_with("Success! You have been given the guest role. It will expire on "));
    assert!(r.body.ends_with('.'));
    // The rendered moment is machine-dependent local time; it must at least
    // name the year of the timestamp.
    assert!(r.body.contains("2020"));
}

#[test]
fn compose_without_a_date() {
    let r = compose(&GuestResponse::AlreadyHasMember);
    assert_eq!(r.body, "Error! You are already a member.");
    assert!(!r.success);
}

#[test]
fn expect_ref_borrows_the_held_value() {
    let held: Option<u32> = Some(5);
    assert_eq!(*held.expect_ref("a value is held"), 5);
    assert_eq!(*held.unwrap_ref(), 5);
}
