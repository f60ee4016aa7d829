use krill::utils::hlist::{Concat, FnFoldHList, Has, IntoShape, Mappable, Prepend, ToMut, ToRef, TryFold};

#[test]
fn macros() {
    let empty_list: () = ();
    assert_eq!(empty_list, ());

    let single_list: (String, ()) = ("Hi".to_owned(), ());
    assert_eq!(single_list, ("Hi".to_owned(), ()));

    let list: (u32, (f64, (bool, ()))) = (10u32, (1.8f64, (true, ())));
    assert_eq!(list, (10u32, (1.8f64, (true, ()))));

    let three_list: (u32, (f32, (bool, ()))) = (25u32, (0.6f32, (false, ())));
    assert_eq!(three_list, (25u32, (0.6f32, (false, ()))));
}

struct Nesting {
    value: String,
}

#[test]
fn destruct() {
    let list = (12u32, (9.7f32, (false, ())));
    let (variable, _) = list;
    assert_eq!(12u32, variable);

    let (int, (float, (boolean, _))) = list;
    assert_eq!(12u32, int);
    assert_eq!(9.7f32, float);
    assert_eq!(false, boolean);

    let (mut int, _) = list;
    assert_eq!(12u32, int);
    int = 13u32;
    assert_eq!(13u32, int);

    let list = (Nesting { value: "Hello".to_owned() }, ());
    let (Nesting { value }, _) = list;
    assert_eq!("Hello".to_owned(), value);
}

#[test]
fn shape() {
    let list = (10u32, ("string", (2.5f32, (false, ()))));

    let (sub_list, remainder): ((&str, (bool, ())), _) = list.into_shape();
    assert_eq!(sub_list, ("string", (false, ())));
    assert_eq!(remainder, (10u32, (2.5f32, ())));
}

#[test]
fn concat() {
    let root_list = ("string", (23u32, ()));
    let second_list = (false, (2.5f32, ()));
    let concatenated = root_list.concat(second_list);
    assert_eq!(concatenated, ("string", (23u32, (false, (2.5f32, ())))));
}

#[test]
fn shape_concat() {
    let full_list = (25u32, ("string".to_owned(), ()));
    let (shaped, remainder): ((String, ()), _) = full_list.into_shape();
    assert_eq!(("string".to_owned(), ()), shaped);
    let merged = remainder.concat((0.6f32, (false, ())));
    assert_eq!((25u32, (0.6f32, (false, ()))), merged);
}

#[test]
fn get() {
    let list = (10u32, ("str", (0.0f32, ())));
    {
        let string: &&str = list.get();
        assert_eq!(*string, "str");
    }
    {
        let uint32: &u32 = list.get();
        assert_eq!(*uint32, 10u32);
    }
    {
        let float32: &f32 = list.get();
        assert_eq!(*float32, 0.0);
    }
}

#[test]
fn map() {
    let list_a = (5u32, (1.8f32, (true, ())));
    let list_b = list_a.map((
        |int: u32| (int as f32) * 1.5,
        (
            |float: f32| float.round() as u32,
            (|boolean: bool| if boolean { "True".to_owned() } else { "False".to_owned() }, ()),
        ),
    ));
    assert_eq!((7.5f32, (2u32, ("True".to_owned(), ()))), list_b);
}

#[test]
fn prepend_puts_value_in_front() {
    assert_eq!(().prepend(1u8), (1u8, ()));
    assert_eq!((2u8, ()).prepend("a"), ("a", (2u8, ())));
}

#[test]
fn get_mut_and_pick() {
    let mut list = (1u32, ("two", (3i64, ())));
    {
        let number: &mut i64 = list.get_mut();
        *number = 30;
    }
    assert_eq!(list, (1u32, ("two", (30i64, ()))));
    let (picked, remainder): (&str, _) = list.pick();
    assert_eq!(picked, "two");
    assert_eq!(remainder, (1u32, (30i64, ())));
}

#[test]
fn to_ref_and_to_mut() {
    let mut list = (1u32, (true, ()));
    assert_eq!(list.to_ref(), (&1u32, (&true, ())));
    {
        let (number, (flag, ())) = list.to_mut();
        *number += 1;
        *flag = false;
    }
    assert_eq!(list, (2u32, (false, ())));
}

#[test]
fn try_fold_stops_at_first_error() {
    let list = (3u32, (4u32, ()));
    let sum: Result<u32, String> = list.try_fold(
        10u32,
        (|acc: u32, x: u32| Ok(acc + x), (|acc: u32, x: u32| Ok(acc * x), ())),
    );
    assert_eq!(sum, Ok(52));
    let failed: Result<u32, String> = list.try_fold(
        10u32,
        (|_acc: u32, x: u32| Err(format!("rejected {}", x)), (|acc: u32, x: u32| Ok(acc * x), ())),
    );
    assert_eq!(failed, Err("rejected 3".to_owned()));
    let direct: Result<u32, ()> = (|acc: u32, x: u32| Ok(acc - x), ()).invoke(5u32, (2u32, ()));
    assert_eq!(direct, Ok(3));
}
