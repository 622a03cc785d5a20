use core::ops::ControlFlow::{self, Continue};
use propagate::{FromGood, Good, IntoGood};

#[derive(Debug, PartialEq)]
#[allow(dead_code)]
enum MyEnum {
    Zero,
    One(i32),
    OverloadOne(i32),
    Two(i32, i32),
    Three(i32, i32, i32),
    Named { id: i32 },
}

// What the derivation emits for the group of `Two`, the only good variant of its shape.
impl Good<(i32, i32)> for MyEnum {
    fn good(self) -> Result<(i32, i32), Self> {
        match self {
            MyEnum::Two(v0, v1) => Ok((v0, v1)),
            _ => Err(self),
        }
    }
}

impl FromGood<(i32, i32)> for MyEnum {
    fn from_good(_v: (i32, i32)) -> Self {
        let (v0, v1) = _v;
        MyEnum::Two(v0, v1)
    }
}

#[test]
fn into_good() {
    let opt: Option<_> = 1.into_good();
    assert_eq!(opt, Some(1));

    let res: Result<i32, i32> = 2.into_good();
    assert_eq!(res, Ok(2));

    let control: ControlFlow<i32, i32> = 3.into_good();
    assert_eq!(control, Continue(3));

    let my_enum: MyEnum = (4, 4).into_good();
    assert_eq!(my_enum, MyEnum::Two(4, 4));
}
