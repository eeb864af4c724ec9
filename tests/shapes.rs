use core::cmp::Ordering;

use shapes::circle::Circle;
use shapes::labels::{Comp, Gender};
use shapes::rect::Rect;
use shapes::shape::Shape;
use shapes::text::ParseError;
use shapes::triangle::Triangle;

#[test]
fn rect_area_and_perimeter() {
    let r = Rect::new(3, 5, "Box");
    assert_eq!(r.area(), 15);
    assert_eq!(r.perimeter(), 16);
    let r = Rect::new(-2, 7, "negative");
    assert_eq!(r.area(), -14);
    assert_eq!(r.perimeter(), 10);
    let r = Rect::new(0, 9, "flat");
    assert_eq!(r.area(), 0);
    assert_eq!(r.perimeter(), 18);
}

#[test]
fn rect_default_is_unit_square() {
    let r = Rect::default();
    assert_eq!(r.get_length(), 1);
    assert_eq!(r.get_width(), 1);
    assert_eq!(r.get_name(), "default");
    assert_eq!(r.area(), 1);
    assert_eq!(r.perimeter(), 4);
}

#[test]
fn rect_setters_and_getters() {
    let mut r = Rect::new(1, 1, "a");
    r.set_length(4);
    r.set_width(6);
    r.set_name("b");
    assert_eq!(r.get_length(), 4);
    assert_eq!(r.get_width(), 6);
    assert_eq!(r.get_name(), "b");
    assert_eq!(r.area(), 24);
    assert_eq!(r.perimeter(), 20);
}

#[test]
fn rect_construct_keeps_dimensions() {
    let r = <Rect as Shape>::construct(2, 4, "Rectangle2");
    assert_eq!(r.get_length(), 2);
    assert_eq!(r.get_width(), 4);
    assert_eq!(r.get_name(), "Rectangle2");
}

#[test]
fn rect_equality_uses_area_only() {
    let a = Rect::new(2, 6, "a");
    let b = Rect::new(3, 4, "b");
    let c = Rect::new(1, 12, "c");
    assert!(a == b);
    assert!(b == a);
    assert!(a == a);
    assert!(b == c && a == c);
    assert!(!(a != b));
    assert_ne!(a.perimeter(), b.perimeter());
    let d = Rect::new(2, 5, "d");
    assert!(a != d);
}

#[test]
fn rect_ordering_by_area() {
    let r1 = Rect::default();
    let r2 = Rect::new(1, 3, "Rectangle2");
    let r3 = Rect::parse("4,5,Rectangle3").unwrap();
    assert_eq!(r1.partial_cmp(&r2), Some(Ordering::Less));
    assert!(r1 <= r2);
    assert!(r1 < r2);
    assert!(!(r2 == r3));
    assert!(r2 != r3);
    assert_eq!(r3.partial_cmp(&r2), Some(Ordering::Greater));
    let same = Rect::new(3, 1, "same");
    assert_eq!(r2.partial_cmp(&same), Some(Ordering::Equal));
    assert!(r2 == same);
}

#[test]
fn rect_parse_full_text() {
    let r = Rect::parse("3,5,Box").unwrap();
    assert_eq!(r.get_length(), 3);
    assert_eq!(r.get_width(), 5);
    assert_eq!(r.get_name(), "Box");
    assert_eq!(r.area(), 15);
    assert_eq!(r.perimeter(), 16);
}

#[test]
fn rect_parse_missing_fields_default() {
    let r = Rect::parse("4").unwrap();
    assert_eq!(r.get_length(), 4);
    assert_eq!(r.get_width(), 0);
    assert_eq!(r.get_name(), "");
    let r = Rect::parse("4,2").unwrap();
    assert_eq!(r.get_width(), 2);
    assert_eq!(r.get_name(), "");
}

#[test]
fn rect_parse_malformed_length() {
    assert_eq!(Rect::parse("x,5,Box"), Err(ParseError { field: 0 }));
}

#[test]
fn rect_parse_malformed_width() {
    assert_eq!(Rect::parse("3,y,Box"), Err(ParseError { field: 1 }));
    assert_eq!(Rect::parse("3,,Box"), Err(ParseError { field: 1 }));
    assert_eq!(Rect::parse("3, 5,Box"), Err(ParseError { field: 1 }));
}

#[test]
fn rect_parse_empty_text_is_an_error() {
    assert_eq!(Rect::parse(""), Err(ParseError { field: 0 }));
}

#[test]
fn rect_parse_signs_and_limits() {
    let r = Rect::parse("+7,-3,s").unwrap();
    assert_eq!(r.get_length(), 7);
    assert_eq!(r.get_width(), -3);
    let r = Rect::parse("2147483647,-2147483648").unwrap();
    assert_eq!(r.get_length(), i32::MAX);
    assert_eq!(r.get_width(), i32::MIN);
    assert_eq!(Rect::parse("2147483648,1"), Err(ParseError { field: 0 }));
    assert_eq!(Rect::parse("1,-2147483649"), Err(ParseError { field: 1 }));
    assert_eq!(Rect::parse("-,1"), Err(ParseError { field: 0 }));
    assert_eq!(Rect::parse("+,1"), Err(ParseError { field: 0 }));
    let r = Rect::parse("007,0010").unwrap();
    assert_eq!(r.get_length(), 7);
    assert_eq!(r.get_width(), 10);
}

#[test]
fn rect_parse_ignores_fields_after_name() {
    let r = Rect::parse("1,2,Name,extra,more").unwrap();
    assert_eq!(r.get_name(), "Name");
    let r = Rect::parse("1,2,Größe").unwrap();
    assert_eq!(r.get_name(), "Größe");
}

#[test]
fn circle_measures() {
    let c = Circle::new(2, "Circle1");
    assert_eq!(c.area(), 12);
    assert_eq!(c.perimeter(), 12);
    let c = Circle::new(3, "Circle2");
    assert_eq!(c.area(), 28);
    assert_eq!(c.perimeter(), 18);
    let c = Circle::new(10, "ten");
    assert_eq!(c.area(), 314);
    assert_eq!(c.perimeter(), 62);
    let c = Circle::new(0, "zero");
    assert_eq!(c.area(), 0);
    assert_eq!(c.perimeter(), 0);
}

#[test]
fn circle_measures_match_float_pi() {
    for r in [1i32, 5, 7, 100, 1234, 26000] {
        let c = Circle::new(r, "c");
        let rf = r as f64;
        assert_eq!(c.area(), (std::f64::consts::PI * rf * rf) as i32);
        assert_eq!(c.perimeter(), (2.0 * std::f64::consts::PI * rf) as i32);
    }
}

#[test]
fn circle_negative_radius_rounds_toward_zero() {
    let c = Circle::new(-2, "c");
    assert_eq!(c.area(), 12);
    assert_eq!(c.perimeter(), -12);
}

#[test]
fn circle_dimension_setters_do_nothing() {
    let mut c = Circle::new(5, "c");
    let area = c.area();
    let perimeter = c.perimeter();
    c.set_length(100);
    c.set_width(200);
    assert_eq!(c.area(), area);
    assert_eq!(c.perimeter(), perimeter);
    assert_eq!(c.get_length(), 0);
    assert_eq!(c.get_width(), 0);
    assert_eq!(c.radius, 5);
}

#[test]
fn circle_construct_ignores_dimensions() {
    let c = <Circle as Shape>::construct(3, 4, "zeroed");
    assert_eq!(c.radius, 0);
    assert_eq!(c.get_name(), "zeroed");
    assert_eq!(c.area(), 0);
}

#[test]
fn circle_name_accessors() {
    let mut c = Circle::new(1, "old");
    c.set_name("new");
    assert_eq!(c.get_name(), "new");
    assert_eq!(c.radius, 1);
}

#[test]
fn circle_equality_and_ordering() {
    let c1 = Circle::new(2, "Circle1");
    let c2 = Circle::new(3, "Circle2");
    let c3 = Circle::parse("4, Circle3").unwrap();
    assert_eq!(c3.radius, 4);
    assert_eq!(c3.get_name(), " Circle3");
    assert_eq!(c1.partial_cmp(&c2), Some(Ordering::Less));
    assert!(c1 <= c2);
    assert!(!(c2 == c3));
    assert!(c2 != c3);
    let twin = Circle::new(2, "twin");
    assert!(c1 == twin);
    assert_eq!(c1.partial_cmp(&twin), Some(Ordering::Equal));
    let mirror = Circle::new(-2, "mirror");
    assert!(c1 != mirror);
    assert_eq!(c1.partial_cmp(&mirror), Some(Ordering::Greater));
}

#[test]
fn circle_parse_cases() {
    let c = Circle::parse("7").unwrap();
    assert_eq!(c.radius, 7);
    assert_eq!(c.get_name(), "");
    let c = Circle::parse("7,Wheel,ignored").unwrap();
    assert_eq!(c.get_name(), "Wheel");
    assert_eq!(Circle::parse("seven,Wheel"), Err(ParseError { field: 0 }));
    assert_eq!(Circle::parse(" 7,Wheel"), Err(ParseError { field: 0 }));
}

#[test]
fn triangle_measures() {
    let t = Triangle::new(3, 4, "Triangle1");
    assert_eq!(t.area(), 6);
    assert_eq!(t.perimeter(), 12);
    let t = Triangle::new(5, 12, "Triangle2");
    assert_eq!(t.area(), 30);
    assert_eq!(t.perimeter(), 30);
    let t = Triangle::new(3, 3, "odd");
    assert_eq!(t.area(), 4);
    assert_eq!(t.perimeter(), 10);
    let t = Triangle::new(1, 1, "unit");
    assert_eq!(t.area(), 0);
    assert_eq!(t.perimeter(), 3);
}

#[test]
fn triangle_negative_area_rounds_toward_zero() {
    let t = Triangle::new(-1, 1, "t");
    assert_eq!(t.area(), 0);
    assert_eq!(t.perimeter(), 1);
    let t = Triangle::new(-3, 3, "t");
    assert_eq!(t.area(), -4);
}

#[test]
fn triangle_large_sides() {
    let t = Triangle::new(46341, 46341, "big");
    assert_eq!(t.area(), 1073744140);
    assert_eq!(t.perimeter(), 46341 + 46341 + 65536);
    let t = Triangle::new(i32::MAX, 0, "long");
    assert_eq!(t.area(), 0);
    let t = Triangle::new(1_000_000_000, 0, "thin");
    assert_eq!(t.perimeter(), 2_000_000_000);
}

#[test]
fn triangle_dimension_setters_do_nothing() {
    let mut t = Triangle::new(6, 8, "t");
    t.set_length(1);
    t.set_width(2);
    assert_eq!(t.area(), 24);
    assert_eq!(t.perimeter(), 24);
    assert_eq!(t.get_length(), 0);
    assert_eq!(t.get_width(), 0);
    assert_eq!((t.base, t.height), (6, 8));
}

#[test]
fn triangle_construct_ignores_dimensions() {
    let t = <Triangle as Shape>::construct(3, 4, "zeroed");
    assert_eq!((t.base, t.height), (0, 0));
    assert_eq!(t.get_name(), "zeroed");
    assert_eq!(t.perimeter(), 0);
}

#[test]
fn triangle_parse_reads_height_first() {
    let t = Triangle::parse("6,8,Triangle3").unwrap();
    assert_eq!(t.height, 6);
    assert_eq!(t.base, 8);
    assert_eq!(t.get_name(), "Triangle3");
    assert_eq!(t.area(), 24);
    assert_eq!(t.perimeter(), 24);
    let t = Triangle::parse("9").unwrap();
    assert_eq!((t.base, t.height), (0, 9));
    assert_eq!(Triangle::parse("a,8"), Err(ParseError { field: 0 }));
    assert_eq!(Triangle::parse("6,b"), Err(ParseError { field: 1 }));
}

#[test]
fn triangle_equality_and_ordering() {
    let t1 = Triangle::new(3, 4, "Triangle1");
    let t2 = Triangle::new(5, 12, "Triangle2");
    let t3 = Triangle::parse("6,8,Triangle3").unwrap();
    assert_eq!(t1.partial_cmp(&t2), Some(Ordering::Less));
    assert!(t1 <= t2);
    assert!(!(t2 == t3));
    assert!(t2 != t3);
    let swapped = Triangle::new(4, 3, "swapped");
    assert!(t1 == swapped);
    assert_eq!(t1.partial_cmp(&swapped), Some(Ordering::Equal));
    // Same area, different perimeter: ordered by perimeter.
    let a = Triangle::new(2, 6, "a");
    let b = Triangle::new(3, 4, "b");
    assert_eq!(a.area(), b.area());
    assert!(a != b);
    assert_eq!(a.partial_cmp(&b), Some(Ordering::Greater));
    assert_eq!(b.partial_cmp(&a), Some(Ordering::Less));
}

#[test]
fn triangle_name_accessors() {
    let mut t = Triangle::new(1, 2, "old");
    t.set_name("new");
    assert_eq!(t.get_name(), "new");
}

#[test]
fn labels_compare_by_variant() {
    assert_eq!(Comp::Equal, Comp::Equal);
    assert_ne!(Comp::LessThan, Comp::GreaterThan);
    assert_ne!(Gender::Male, Gender::Female);
}
