use vending_machine::moderation::post::{Body, Id as PostId, Title};
use vending_machine::moderation::user::Id as UserId;
use vending_machine::moderation::{New, Post};
use vending_machine::polyline::{Point, Polyline};
use vending_machine::stack::GlobalStack;

#[test]
fn stack_gives_back_the_last_element_first() {
    let mut stack = GlobalStack::<u64>::new();

    assert!(stack.is_empty());
    stack.push(1);
    assert_eq!(stack.len(), 1);
    stack.push(2);
    assert_eq!(stack.len(), 2);
    assert_eq!(stack.pop(), Some(2));
    assert_eq!(stack.pop(), Some(1));
    assert_eq!(stack.pop(), None);
    assert!(stack.is_empty());

    stack.push(5);
    assert_eq!(stack.len(), 1);
    assert_eq!(stack.pop(), Some(5));
}

#[test]
fn polyline_keeps_points_in_order() {
    let p1 = Point { x: 1, y: 2 };
    let p2 = p1.clone();
    let p3 = p1;
    let p4: Point = Default::default();

    assert_eq!(p1.x, 1);
    assert_eq!(p1.y, 2);
    assert_eq!(p2.x, 1);
    assert_eq!(p2.y, 2);
    assert_eq!(p3.x, 1);
    assert_eq!(p3.y, 2);
    assert_eq!(p4.x, 0);
    assert_eq!(p4.y, 0);

    let q = Point { x: -3, y: 9 };
    let mut poly = Polyline::with_point(p1);
    assert_eq!(poly.len(), 1);
    poly.add_points(vec![q, p3]);
    poly.add_point(p4);

    assert_eq!(poly.len(), 4);
    assert_eq!(poly.points(), &vec![p1, q, p3, p4]);

    let poly1 = poly.clone();
    assert_eq!(poly1.len(), 4);
    assert_eq!(poly1.points(), poly.points());
}

#[test]
fn post_keeps_its_content_through_moderation() {
    let new_post = Post::<New>::new(
        PostId(5),
        UserId(1),
        Title("title".to_owned()),
        Body("body".to_owned()),
    );
    assert_eq!(new_post.id(), 5);
    assert_eq!(new_post.user_id(), 1);
    assert_eq!(new_post.title(), "title");
    assert_eq!(new_post.body(), "body");

    let unmoderated = new_post.publish();
    let unmoderated_1 = unmoderated.clone();
    assert_eq!(unmoderated_1.id(), 5);
    assert_eq!(unmoderated_1.title(), "title");

    let published = unmoderated.allow();
    assert_eq!(published.body(), "body");

    let deleted = published.delete();
    let deleted_1 = unmoderated_1.deny();
    assert_eq!(deleted.id(), 5);
    assert_eq!(deleted.user_id(), 1);
    assert_eq!(deleted_1.title(), "title");
    assert_eq!(deleted_1.body(), "body");
}
