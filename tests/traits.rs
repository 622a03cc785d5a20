use core::ops::ControlFlow;
use propagate::__private::{__BadIndex, __GetIndex, __GoodIndex};
use propagate::{
    Bad, ExactlyTwoDistinctVariants, FromBad, FromGood, Good, Homogeneous, IntoBad, TwoStates,
};

#[derive(Debug, PartialEq)]
enum Switch {
    High(i32, i32),
    Low(u8),
}

// What the derivation emits for a two-state enum with `High` good and `Low` bad.
impl Good<(i32, i32)> for Switch {
    fn good(self) -> Result<(i32, i32), Self> {
        match self {
            Switch::High(v0, v1) => Ok((v0, v1)),
            _ => Err(self),
        }
    }
}

impl FromGood<(i32, i32)> for Switch {
    fn from_good(_v: (i32, i32)) -> Self {
        let (v0, v1) = _v;
        Switch::High(v0, v1)
    }
}

impl Bad<u8> for Switch {
    fn bad(self) -> Result<Self, u8> {
        match self {
            Switch::Low(v) => Err(v),
            _ => Ok(self),
        }
    }
}

impl FromBad<u8> for Switch {
    fn from_bad(_v: u8) -> Self {
        Switch::Low(_v)
    }
}

impl ExactlyTwoDistinctVariants for Switch {}

#[test]
fn option_good_and_bad() {
    assert_eq!(Some(3).good(), Ok(3));
    assert_eq!(None::<i32>.good(), Err(None));
    assert_eq!(Some(3).bad(), Ok(Some(3)));
    assert_eq!(None::<i32>.bad(), Err(()));
    let opt = Some(8);
    assert_eq!((&opt).good(), Ok(&8));
    let none: Option<i32> = None;
    assert_eq!((&none).good(), Err(&None));
}

#[test]
fn result_good_and_bad() {
    let ok: Result<i32, &str> = Ok(1);
    let err: Result<i32, &str> = Err("error");
    assert_eq!(ok.good(), Ok(1));
    assert_eq!(err.good(), Err(Err("error")));
    assert_eq!(ok.bad(), Ok(Ok(1)));
    assert_eq!(err.bad(), Err("error"));
    assert_eq!((&ok).good(), Ok(&1));
    assert_eq!((&err).bad(), Err(&"error"));
    assert_eq!((&ok).bad(), Ok(&ok));
}

#[test]
fn control_flow_good_and_bad() {
    let go: ControlFlow<&str, i32> = ControlFlow::Continue(5);
    let stop: ControlFlow<&str, i32> = ControlFlow::Break("break");
    assert_eq!(go.good(), Ok(5));
    assert_eq!(stop.good(), Err(ControlFlow::Break("break")));
    assert_eq!(stop.bad(), Err("break"));
    assert_eq!(go.bad(), Ok(ControlFlow::Continue(5)));
    assert_eq!((&stop).bad(), Err(&"break"));
}

#[test]
fn constructors_build_the_marked_variant() {
    assert_eq!(<Option<i32> as FromGood<i32>>::from_good(4), Some(4));
    assert_eq!(<Option<i32> as FromBad<()>>::from_bad(()), None);
    assert_eq!(<Result<i32, u8> as FromBad<u8>>::from_bad(7), Err(7));
    let built: Result<i32, u8> = propagate::Good(9);
    assert_eq!(built, Ok(9));
    let built: ControlFlow<u8, i32> = propagate::Bad(2);
    assert_eq!(built, ControlFlow::Break(2));
    let into: Result<(), &str> = "failure".into_bad();
    assert_eq!(into, Err("failure"));
}

#[test]
fn two_states_collapse_to_result() {
    let ok: Result<i32, &str> = Ok(12);
    assert_eq!(ok.two_states(), Ok(12));
    let err: Result<i32, &str> = Err("err");
    assert_eq!(err.two_states(), Err("err"));
    assert_eq!(Some(1).two_states(), Ok(1));
    assert_eq!(None::<i32>.two_states(), Err(()));
    assert_eq!(Switch::High(1, 2).two_states(), Ok((1, 2)));
    assert_eq!(Switch::Low(3).two_states(), Err(3));
}

#[test]
fn single_variant_constructor_round_trips() {
    let built = Switch::from_good((5, 9));
    assert_eq!(built, Switch::High(5, 9));
    assert_eq!(built.good(), Ok((5, 9)));
    let built: Switch = propagate::Bad(6u8);
    assert_eq!(built.bad(), Err(6));
}

#[test]
fn homogeneous_takes_out_either_payload() {
    assert_eq!(Ok::<i32, i32>(4).get_inner_value(), 4);
    assert_eq!(Err::<i32, i32>(5).get_inner_value(), 5);
    let r: Result<u8, u8> = Err(6);
    assert_eq!((&r).get_inner_value(), &6);
    assert_eq!(ControlFlow::<i32, i32>::Break(7).get_inner_value(), 7);
    assert_eq!(None::<()>.get_inner_value(), ());
    assert_eq!(7u8.get_inner_value(), 7);
    assert!(true.get_inner_value());
}

#[test]
fn variant_index_tables() {
    assert_eq!(Some(1).get_index(), 0);
    assert_eq!(None::<i32>.get_index(), 1);
    assert!(Some(1).is_good());
    assert!(!Some(1).is_bad());
    assert!(None::<i32>.is_bad());
    assert!(!None::<i32>.is_good());
    let err: Result<i32, i32> = Err(1);
    assert!(err.is_bad());
    assert!(!err.is_good());
    let go: ControlFlow<i32, i32> = ControlFlow::Continue(1);
    assert!(go.is_good());
    assert_eq!(go.good_indexes(), &[1]);
    assert_eq!(go.bad_indexes(), &[2]);
}
