use bouncy::collision;
use bouncy::fixed::Fixed;
use bouncy::history::CollisionList;
use bouncy::rotating::Collision;
use bouncy::vector::{Point, Vector};

fn mark(n: i32) -> Collision {
    Collision::new(
        collision::Collision::new(
            Point::new(Fixed::from_int(n), Fixed::from_int(-n)),
            Vector::new(Fixed::zero(), Fixed::one()),
        ),
        Point::new(Fixed::from_int(7), Fixed::from_int(8)),
        n as u64,
    )
}

#[test]
fn a_record_starts_at_angle_zero() {
    let record = mark(3);
    assert_eq!(record.angle, Fixed::zero());
    assert_eq!(record.time, 3);
    assert_eq!(record.center_of_rotation, Point::new(Fixed::from_int(7), Fixed::from_int(8)));
    assert_eq!(record.collision.point, Point::new(Fixed::from_int(3), Fixed::from_int(-3)));
}

#[test]
fn a_record_turns_by_what_it_is_told() {
    let mut record = mark(3);
    record.update(Fixed::from_int(2));
    record.update(Fixed::from_ratio(-1, 2));
    assert_eq!(record.angle, Fixed::from_ratio(3, 2));
    assert_eq!(record.collision, mark(3).collision);
    assert_eq!(record.time, 3);
    record.update(Fixed { raw: i64::MAX });
    assert_eq!(record.angle, Fixed { raw: i64::MAX });
}

#[test]
fn a_record_is_shown_where_the_body_has_carried_it() {
    let mut record = Collision::new(
        collision::Collision::new(
            Point::new(Fixed::from_int(3), Fixed::from_int(1)),
            Vector::new(Fixed::one(), Fixed::zero()),
        ),
        Point::new(Fixed::from_int(1), Fixed::from_int(1)),
        0,
    );
    assert_eq!(record.current(), record.collision);
    record.update(Fixed { raw: 6_746_518_852 });
    assert_eq!(
        record.current(),
        collision::Collision::new(
            Point::new(Fixed::from_int(1), Fixed::from_int(3)),
            Vector::new(Fixed::zero(), Fixed::one()),
        )
    );
}

#[test]
fn a_new_log_is_empty() {
    let list = CollisionList::new(5);
    assert_eq!(list.len(), 0);
    assert_eq!(list.capacity(), 5);
    assert_eq!(list.to_vec(), vec![]);
}

#[test]
fn records_come_out_oldest_first() {
    let mut list = CollisionList::new(5);
    list.push(mark(1));
    list.push(mark(2));
    list.push(mark(3));
    assert_eq!(list.len(), 3);
    assert_eq!(list.to_vec(), vec![mark(1), mark(2), mark(3)]);
    assert_eq!(list.capacity(), 5);
}

#[test]
fn a_full_log_drops_its_oldest_record() {
    let mut list = CollisionList::new(3);
    for n in 1..=3 {
        list.push(mark(n));
    }
    assert_eq!(list.to_vec(), vec![mark(1), mark(2), mark(3)]);
    list.push(mark(4));
    assert_eq!(list.to_vec(), vec![mark(2), mark(3), mark(4)]);
    for n in 5..=100 {
        list.push(mark(n));
        assert_eq!(list.len(), 3);
    }
    assert_eq!(list.to_vec(), vec![mark(98), mark(99), mark(100)]);
    assert_eq!(list.capacity(), 3);
}

#[test]
fn a_log_of_one_keeps_the_newest() {
    let mut list = CollisionList::new(1);
    list.push(mark(1));
    list.push(mark(2));
    assert_eq!(list.to_vec(), vec![mark(2)]);
}

#[test]
fn every_record_turns_with_the_body() {
    let mut list = CollisionList::new(3);
    list.push(mark(1));
    list.advance(Fixed::from_int(1));
    list.push(mark(2));
    list.advance(Fixed::from_int(2));
    list.push(mark(3));
    let angles: Vec<Fixed> = list.to_vec().iter().map(|r| r.angle).collect();
    assert_eq!(angles, vec![Fixed::from_int(3), Fixed::from_int(2), Fixed::zero()]);
    list.push(mark(4));
    list.advance(Fixed::from_int(-5));
    let angles: Vec<Fixed> = list.to_vec().iter().map(|r| r.angle).collect();
    assert_eq!(angles, vec![Fixed::from_int(-3), Fixed::from_int(-5), Fixed::from_int(-5)]);
    let times: Vec<u64> = list.to_vec().iter().map(|r| r.time).collect();
    assert_eq!(times, vec![2, 3, 4]);
}

#[test]
fn turning_an_empty_log_leaves_it_empty() {
    let mut list = CollisionList::new(2);
    list.advance(Fixed::one());
    assert_eq!(list.len(), 0);
}

#[test]
fn the_age_of_a_record_is_told_in_ticks() {
    let record = mark(10);
    let step = Fixed::one().div(Fixed::from_int(1024));
    assert_eq!(record.age(10, step), Fixed::zero());
    assert_eq!(record.age(9, step), Fixed::zero());
    assert_eq!(record.age(11, step), step);
    assert_eq!(record.age(10 + 1024, step), Fixed::one());
    assert_eq!(record.age(10 + 512, step), Fixed::from_ratio(1, 2));
    assert_eq!(record.age(u64::MAX, Fixed::one()), Fixed { raw: i64::MAX });
    assert_eq!(record.age(u64::MAX, Fixed::from_int(-1)), Fixed { raw: i64::MIN });
    assert_eq!(record.age(12, Fixed::from_int(-1)), Fixed::from_int(-2));
}
