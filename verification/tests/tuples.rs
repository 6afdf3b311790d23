use rusty_ray_tracer::core3d::array_base::{zip_for_each_collect, ArrayBase};
use rusty_ray_tracer::core3d::color_rgb::ColorRGB;
use rusty_ray_tracer::core3d::coordinates4::Coordinates4;
use rusty_ray_tracer::core3d::dot_product::{dot, DotProduct};

#[derive(Clone)]
struct ArrayBasedStruct([f32; 4]);
impl ArrayBase for ArrayBasedStruct {
    type Item = f32;
    fn array(&self) -> [f32; 4] {
        self.0
    }
    fn get_array(self) -> [f32; 4] {
        self.0
    }
    fn get_array_ref(&self) -> &[f32; 4] {
        &self.0
    }
    fn get_array_mut(&mut self) -> &mut [f32; 4] {
        &mut self.0
    }
}
impl DotProduct for ArrayBasedStruct {}

#[derive(Clone)]
pub struct Tuple {
    coords: [f32; 4],
}
impl ArrayBase for Tuple {
    type Item = f32;

    fn array(&self) -> [f32; 4] {
        self.coords
    }

    fn get_array(self) -> [f32; 4] {
        self.coords
    }

    fn get_array_ref(&self) -> &[f32; 4] {
        &self.coords
    }

    fn get_array_mut(&mut self) -> &mut [f32; 4] {
        &mut self.coords
    }
}
impl Coordinates4 for Tuple {}

#[derive(Clone)]
pub struct Color {
    tuple: [f32; 4],
}
impl ArrayBase for Color {
    type Item = f32;

    fn array(&self) -> [f32; 4] {
        self.tuple
    }

    fn get_array(self) -> [f32; 4] {
        self.tuple
    }

    fn get_array_ref(&self) -> &[f32; 4] {
        &self.tuple
    }

    fn get_array_mut(&mut self) -> &mut [f32; 4] {
        &mut self.tuple
    }
}
impl ColorRGB for Color {}

#[test]
fn array_base_get_array() {
    let result = ArrayBasedStruct([1.0, 2.0, 3.0, 4.0]);
    assert_eq!([1.0, 2.0, 3.0, 4.0], *result.get_array_ref());
    assert_eq!([1.0, 2.0, 3.0, 4.0], result.clone().get_array());
    assert_eq!([1.0, 2.0, 3.0, 4.0], *result.get_array_ref());
}

#[test]
fn array_base_get_array_mut() {
    let mut result = ArrayBasedStruct([1.0, 2.0, 3.0, 4.0]);
    assert_eq!([1.0, 2.0, 3.0, 4.0], *result.get_array_mut());
    result.get_array_mut()[0] += 10.0;
    result.get_array_mut()[1] += 10.0;
    result.get_array_mut()[2] += 10.0;
    result.get_array_mut()[3] += 10.0;
    assert_eq!([11.0, 12.0, 13.0, 14.0], *result.get_array_mut());
    assert_eq!([11.0, 12.0, 13.0, 14.0], result.clone().get_array());
    assert_eq!([11.0, 12.0, 13.0, 14.0], *result.get_array_ref());
}

#[test]
fn get_array_default() {
    let result: ArrayBasedStruct = ArrayBasedStruct(Default::default());
    assert_eq!([0.0, 0.0, 0.0, 0.0], result.get_array());
}

#[test]
fn zip_for_each_collect_adds_slot_by_slot() {
    let a = ArrayBasedStruct([1.0, 2.0, 3.0, 4.0]);
    let b = ArrayBasedStruct([4.0, 3.0, 2.0, 1.0]);
    assert_eq!(
        [5.0, 5.0, 5.0, 5.0],
        zip_for_each_collect(a, b, |a, b| a + b).get_array()
    );
    assert_eq!(
        [-3, 1, 6, 28],
        zip_for_each_collect([1, 2, 3, 4], [4, 1, -3, -24], |a, b| a - b)
    );
}

#[test]
fn coordinates4_assign_array() {
    let tuple = Tuple {
        coords: [0.0, 1.0, 2.0, 3.0],
    };
    assert_eq!(0.0, tuple.get_at(0));
    assert_eq!(1.0, tuple.get_at(1));
    assert_eq!(2.0, tuple.get_at(2));
    assert_eq!(3.0, tuple.get_at(3));

    let mut tuple_clone = tuple.clone();
    assert_eq!([0.0, 1.0, 2.0, 3.0], *tuple_clone.get_array_mut());
    assert_eq!([0.0, 1.0, 2.0, 3.0], tuple.get_array());
}

#[test]
fn coordinates4_assign_default() {
    let tuple: Tuple = Tuple {
        coords: Default::default(),
    };
    assert_eq!(0.0, tuple.get_at(0));
    assert_eq!(0.0, tuple.get_at(1));
    assert_eq!(0.0, tuple.get_at(2));
    assert_eq!(0.0, tuple.get_at(3));
}

#[test]
fn check_xyzw() {
    let tuple = Tuple {
        coords: [1.23, 4.56, 7.89, 10.11],
    };
    assert_eq!(1.23, tuple.x());
    assert_eq!(4.56, tuple.y());
    assert_eq!(7.89, tuple.z());
    assert_eq!(10.11, tuple.w());
}

#[test]
fn is_point() {
    let tuple = Tuple {
        coords: [1.23, 4.56, 7.89, 1.0],
    };
    assert!(tuple.is_valid());
    assert!(tuple.is_point());
    assert!(!tuple.is_vector());
}

#[test]
fn is_vector() {
    let tuple = Tuple {
        coords: [1.23, 4.56, 7.89, 0.0],
    };
    assert!(tuple.is_valid());
    assert!(tuple.is_vector());
    assert!(!tuple.is_point());
}

#[test]
fn invalid_point_or_vector() {
    let tuple = Tuple {
        coords: [1.23, 4.56, 7.89, 1.01],
    };
    assert!(!tuple.is_point());
    assert!(!tuple.is_vector());
    assert!(!tuple.is_valid());
}

#[test]
fn integer_tuples_are_points_or_vectors_by_w() {
    assert!(Coordinates4::is_point(&[5i64, -3, 2, 1]));
    assert!(!Coordinates4::is_vector(&[5i64, -3, 2, 1]));
    assert!(Coordinates4::is_vector(&[5i64, -3, 2, 0]));
    assert!(!Coordinates4::is_valid(&[5i64, -3, 2, 7]));
    assert_eq!(-3, Coordinates4::y(&[5i64, -3, 2, 1]));
}

#[test]
fn color_rgb_assign_array() {
    let color = Color {
        tuple: [0.0, 1.0, 2.0, 3.0],
    };
    assert_eq!(0.0, color.get_at(0));
    assert_eq!(1.0, color.get_at(1));
    assert_eq!(2.0, color.get_at(2));
    assert_eq!(3.0, color.get_at(3));

    let mut color_clone = color.clone();
    assert_eq!([0.0, 1.0, 2.0, 3.0], *color_clone.get_array_mut());
    assert_eq!([0.0, 1.0, 2.0, 3.0], color.get_array());
}

#[test]
fn color_rgb_assign_default() {
    let color: Color = Color {
        tuple: Default::default(),
    };
    assert_eq!(0.0, color.get_at(0));
    assert_eq!(0.0, color.get_at(1));
    assert_eq!(0.0, color.get_at(2));
    assert_eq!(0.0, color.get_at(3));
}

#[test]
fn check_rgba() {
    let color = Color {
        tuple: [1.23, 4.56, 7.89, 10.11],
    };
    assert_eq!(1.23, color.r());
    assert_eq!(4.56, color.g());
    assert_eq!(7.89, color.b());
}

#[test]
fn dot_product_test() {
    assert_eq!(
        0.0,
        ArrayBasedStruct([0.0, 0.0, 0.0, 0.0]).dot(ArrayBasedStruct([0.0, 0.0, 0.0, 0.0]))
    );
    assert_eq!(
        1.0,
        ArrayBasedStruct([1.0, 0.0, 0.0, 0.0]).dot(ArrayBasedStruct([1.0, 0.0, 0.0, 0.0]))
    );
    assert_eq!(
        1.0,
        ArrayBasedStruct([0.0, 1.0, 0.0, 0.0]).dot(ArrayBasedStruct([0.0, 1.0, 0.0, 0.0]))
    );
    assert_eq!(
        1.0,
        ArrayBasedStruct([0.0, 0.0, 1.0, 0.0]).dot(ArrayBasedStruct([0.0, 0.0, 1.0, 0.0]))
    );
    assert_eq!(
        1.0,
        ArrayBasedStruct([0.0, 0.0, 0.0, 1.0]).dot(ArrayBasedStruct([0.0, 0.0, 0.0, 1.0]))
    );
    assert_eq!(
        1.0,
        ArrayBasedStruct([0.5, 0.5, 0.5, 0.5]).dot(ArrayBasedStruct([0.5, 0.5, 0.5, 0.5]))
    );

    assert_eq!(
        14.0,
        ArrayBasedStruct::dot(
            ArrayBasedStruct([1.0, 2.0, 3.0, 0.0]),
            ArrayBasedStruct([1.0, 2.0, 3.0, 0.0])
        )
    );
    assert_eq!(
        14.0,
        ArrayBasedStruct::dot(
            ArrayBasedStruct([-1.0, -2.0, -3.0, 0.0]),
            ArrayBasedStruct([-1.0, -2.0, -3.0, 0.0])
        )
    );
    assert_eq!(
        -14.0,
        ArrayBasedStruct::dot(
            ArrayBasedStruct([1.0, 2.0, 3.0, 0.0]),
            ArrayBasedStruct([-1.0, -2.0, -3.0, 0.0])
        )
    );

    assert_eq!(
        32.0,
        ArrayBasedStruct::dot(
            ArrayBasedStruct([1.0, 2.0, 3.0, 0.0]),
            ArrayBasedStruct([4.0, 5.0, 6.0, 0.0])
        )
    );
}

#[test]
fn dot_of_integer_arrays() {
    assert_eq!(32, dot(&[1i64, 2, 3, 0], &[4, 5, 6, 0]));
    assert_eq!(0, dot::<0, i32>(&[], &[]));
    assert_eq!(-7, dot(&[7i32], &[-1]));
}
