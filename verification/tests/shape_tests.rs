use composites::shapes::input_shape_list;
use composites::shapes::AreaExact;
use composites::shapes::Circle;
use composites::shapes::Rectangle;
use composites::shapes::Shapes;
use composites::shapes::Triangle;

/// The numeric area of a shape, scaled from its exact form.
fn area_value(s: &Shapes) -> f32 {
    match s.area_exact() {
        AreaExact::PiTimes(k) => std::f32::consts::PI * (k as f32),
        AreaExact::HalfOf(k) => 0.5 * (k as f32),
    }
}

#[test]
fn test_shapes_001() {
    let shape_list = input_shape_list();
    let omap = shape_list.iter().map(|s| s.rep_string());
    let output: Vec<_> = omap.collect();
    let expected = [
        "<Circle: 0, 0, 1>",
        "<Rectangle: 40, 40, 20, 20>",
        "<Triangle: (0, 20), (30, 70), (90, 120)>",
    ];
    assert_eq!(output, expected);
}

#[test]
fn test_shapes_002() {
    let shape_list = input_shape_list();
    let omap = shape_list
        .iter()
        .map(|s| format!("{}, area: {:.2}", s.rep_string(), area_value(s)));
    let output: Vec<_> = omap.collect();
    let expected = [
        "<Circle: 0, 0, 1>, area: 3.14",
        "<Rectangle: 40, 40, 20, 20>, area: 400.00",
        "<Triangle: (0, 20), (30, 70), (90, 120)>, area: 750.00",
    ];
    assert_eq!(output, expected);
}

#[test]
fn test_shapes_003() {
    let input_list = input_shape_list();
    let shape_list = input_list.clone();
    let omap = shape_list
        .iter()
        .map(|s| format!("{}, area: {:.2}", s.rep_string(), area_value(s)));
    let output: Vec<_> = omap.collect();
    let expected = [
        "<Circle: 0, 0, 1>, area: 3.14",
        "<Rectangle: 40, 40, 20, 20>, area: 400.00",
        "<Triangle: (0, 20), (30, 70), (90, 120)>, area: 750.00",
    ];
    assert_eq!(output, expected);
}

#[test]
fn duplicate_keeps_representation_and_area() {
    let shape_list = input_shape_list();
    for s in shape_list.iter() {
        let copy = s.duplicate();
        assert_eq!(copy.rep_string(), s.rep_string());
        assert_eq!(copy.area_exact(), s.area_exact());
        assert_eq!(copy, *s);
    }
}

#[test]
fn negative_coordinates_render_with_signs() {
    let c = Shapes::Circle { x: -3, y: 0, radius: 12 };
    assert_eq!(c.rep_string(), "<Circle: -3, 0, 12>");
    let t = Shapes::Triangle { x1: -1, y1: -2, x2: 3, y2: -4, x3: 5, y3: 6 };
    assert_eq!(t.rep_string(), "<Triangle: (-1, -2), (3, -4), (5, 6)>");
}

#[test]
fn exact_areas_of_the_example_shapes() {
    let shape_list = input_shape_list();
    assert_eq!(shape_list[0].area_exact(), AreaExact::PiTimes(1));
    assert_eq!(shape_list[1].area_exact(), AreaExact::HalfOf(800));
    assert_eq!(shape_list[2].area_exact(), AreaExact::HalfOf(1500));
}

#[test]
fn degenerate_shapes_have_area_zero() {
    let c = Shapes::Circle { x: 7, y: 7, radius: 0 };
    assert_eq!(c.area_exact(), AreaExact::PiTimes(0));
    assert_eq!(area_value(&c), 0.0);
    let t = Shapes::Triangle { x1: 0, y1: 0, x2: 0, y2: 0, x3: 9, y3: 9 };
    assert_eq!(area_value(&t), 0.0);
}

#[test]
fn extreme_coordinates_do_not_overflow() {
    let r = Shapes::Rectangle {
        x: 0,
        y: 0,
        width: i32::MAX,
        height: i32::MIN,
    };
    assert_eq!(
        r.area_exact(),
        AreaExact::HalfOf(2 * (i32::MAX as i128) * (i32::MIN as i128))
    );
    let c = Shapes::Circle { x: 0, y: 0, radius: i32::MIN };
    assert_eq!(
        c.area_exact(),
        AreaExact::PiTimes((i32::MIN as i128) * (i32::MIN as i128))
    );
}

#[test]
fn queries_are_idempotent() {
    let s = Shapes::Rectangle { x: 1, y: 2, width: 3, height: 4 };
    assert_eq!(s.rep_string(), s.rep_string());
    assert_eq!(s.area_exact(), s.area_exact());
}

#[test]
fn struct_shapes_match_the_tagged_family() {
    let c = Circle::new(0, 0, 1);
    let r = Rectangle::new(40, 40, 20, 20);
    let t = Triangle::new(0, 20, 30, 70, 90, 120);
    assert_eq!(c.rep_string(), "<Circle: 0, 0, 1>");
    assert_eq!(r.rep_string(), "<Rectangle: 40, 40, 20, 20>");
    assert_eq!(t.rep_string(), "<Triangle: (0, 20), (30, 70), (90, 120)>");
    assert_eq!(c.to_shape(), Shapes::Circle { x: 0, y: 0, radius: 1 });
    assert_eq!(
        c.to_shape().rep_string(),
        input_shape_list()[0].rep_string()
    );
}
