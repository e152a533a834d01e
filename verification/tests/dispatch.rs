use spine::bus::Spine;
use spine::payload::Message;
use spine::routing::RoutingTable;

#[test]
fn publish_with_no_subscribers_is_a_silent_no_op() {
    let (spine, _inboxes) = Spine::new(vec![("renderer", vec!["tick"])]);
    let msg = Message::new("unheard", &1u32).unwrap();
    let outcome = spine.publish(msg);
    assert_eq!(outcome.attempted, 0);
    assert_eq!(outcome.delivered, 0);
}

#[test]
fn two_subscribers_each_receive_exactly_one_copy() {
    let (spine, mut inboxes) = Spine::new(vec![
        ("renderer", vec!["tick"]),
        ("logger", vec!["tick"]),
    ]);
    assert_eq!(inboxes.len(), 2);

    let record: (u16, u64) = (1, 2);
    let outcome = spine.publish(Message::new("tick", &record).unwrap());
    assert_eq!(outcome.attempted, 2);
    assert_eq!(outcome.delivered, 2);

    // Inboxes come back in registration order: renderer first, logger second.
    for rx in inboxes.iter_mut() {
        let got = rx.try_recv().expect("each subscriber receives exactly one copy");
        assert_eq!(got.id, "tick");
        assert_eq!(got.serialized_data(), &bincode::serialize(&record).unwrap()[..]);
        assert!(rx.try_recv().is_err(), "no second copy may arrive");
    }
}

#[test]
fn three_subscribers_in_registration_order() {
    let (spine, mut inboxes) = Spine::new(vec![
        ("s1", vec!["x"]),
        ("s2", vec!["x"]),
        ("s3", vec!["x"]),
    ]);
    assert_eq!(spine.table.resolve("x"), vec!["s1", "s2", "s3"]);

    let outcome = spine.publish(Message::new("x", &9u32).unwrap());
    assert_eq!(outcome.attempted, 3);
    assert_eq!(outcome.delivered, 3);
    for rx in inboxes.iter_mut() {
        assert_eq!(rx.try_recv().unwrap().id, "x");
    }
}

#[test]
fn closed_inbox_never_stops_delivery_to_the_others() {
    let (spine, mut inboxes) = Spine::new(vec![
        ("s1", vec!["x"]),
        ("s2", vec!["x"]),
        ("s3", vec!["x"]),
    ]);
    // Tear down s2 by dropping the receiving half of its inbox.
    drop(inboxes.remove(1));

    let outcome = spine.publish(Message::new("x", &5u32).unwrap());
    assert_eq!(outcome.attempted, 3);
    assert_eq!(outcome.delivered, 2);

    for rx in inboxes.iter_mut() {
        let got = rx.try_recv().expect("live subscribers still receive");
        assert_eq!(got.id, "x");
    }
}

#[test]
fn registering_between_publishes_takes_effect_only_for_later_calls() {
    let mut spine = Spine::empty();
    let mut rx1 = spine.register("s1", &vec!["x"]).unwrap();

    let first = spine.publish(Message::new("x", &1u32).unwrap());
    assert_eq!(first.attempted, 1);

    let mut rx2 = spine.register("s2", &vec!["x"]).unwrap();
    let second = spine.publish(Message::new("x", &2u32).unwrap());
    assert_eq!(second.attempted, 2);

    // s1 saw both publishes; s2 only the one after its registration.
    assert!(rx1.try_recv().is_ok());
    assert!(rx1.try_recv().is_ok());
    assert!(rx1.try_recv().is_err());
    assert!(rx2.try_recv().is_ok());
    assert!(rx2.try_recv().is_err());
}

#[test]
fn duplicate_registration_is_rejected() {
    let mut spine = Spine::empty();
    assert!(spine.register("s1", &vec!["x"]).is_some());
    assert!(spine.register("s1", &vec!["y"]).is_none());
    assert_eq!(spine.table.resolve("y"), Vec::<&'static str>::new());
}

#[test]
fn one_subscriber_may_subscribe_to_many_identifiers() {
    let (spine, mut inboxes) = Spine::new(vec![("audit", vec!["tick", "chat"])]);
    spine.publish(Message::new("tick", &1u32).unwrap());
    spine.publish(Message::new("chat", &2u32).unwrap());

    let rx = &mut inboxes[0];
    assert_eq!(rx.try_recv().unwrap().id, "tick");
    assert_eq!(rx.try_recv().unwrap().id, "chat");
}

#[test]
fn resolve_distinguishes_identifiers_by_value() {
    let table = RoutingTable::empty()
        .with_route_appended("tick", "s1")
        .with_route_appended("tock", "s2");
    assert_eq!(table.resolve("tick"), vec!["s1"]);
    assert_eq!(table.resolve("tock"), vec!["s2"]);
    assert_eq!(table.resolve("tik"), Vec::<&'static str>::new());
}

#[test]
fn per_inbox_order_is_publish_order() {
    let (spine, mut inboxes) = Spine::new(vec![("s1", vec!["x"])]);
    for v in 0..5u32 {
        spine.publish(Message::new("x", &v).unwrap());
    }
    let rx = &mut inboxes[0];
    for v in 0..5u32 {
        let got: u32 = rx.try_recv().unwrap().parse().unwrap();
        assert_eq!(got, v);
    }
}
