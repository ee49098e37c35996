use macuru::monad::{
    option_bind, option_filter, option_unit, result_bind, result_filter, result_unit, vec_bind,
    vec_filter, vec_unit,
};

#[test]
fn option_operations() {
    let f = |v: i32| if v > 3 { Some(v) } else { None };
    assert_eq!(Some(5), option_unit(5));
    assert_eq!(Some(10), option_bind(Some(10), f));
    assert_eq!(None, option_bind(Some(3), f));
    assert_eq!(None, option_bind(None, f));
    assert_eq!(Some(4), option_filter(Some(4), |x: &i32| *x % 2 == 0));
    assert_eq!(None, option_filter(Some(5), |x: &i32| *x % 2 == 0));
}

#[test]
fn result_operations() {
    let f = |v: i32| if v > 0 { Ok(v * 2) } else { Err("negative") };
    assert_eq!(Ok::<i32, ()>(1), result_unit(1));
    assert_eq!(Ok(6), result_bind(Ok(3), f));
    assert_eq!(Err("negative"), result_bind(Ok(-3), f));
    assert_eq!(Err("first"), result_bind(Err("first"), f));
    assert_eq!(Ok::<i32, ()>(3), result_filter(Ok(3), |_: &i32| false));
}

#[test]
fn vec_operations() {
    assert_eq!(vec![7], vec_unit(7));
    assert_eq!(vec![2, 3], vec_bind(vec![1, 2], |x: i32| vec![x + 1]));
    let v1 = vec![1, 3, 5];
    let pairs = vec_bind(vec!["a", "b"], |x: &str| vec_bind(v1.clone(), move |y: i32| vec![(x, y * 2)]));
    assert_eq!(vec![("a", 2), ("a", 6), ("a", 10), ("b", 2), ("b", 6), ("b", 10)], pairs);
    assert_eq!(Vec::<i32>::new(), vec_bind(Vec::<i32>::new(), |x: i32| vec![x]));
    assert_eq!(vec![2, 4], vec_filter(vec![1, 2, 3, 4], |x: &i32| *x % 2 == 0));
}

#[test]
fn monad_laws_on_values() {
    let g = |x: i32| vec![x, x * 10];
    let h = |x: i32| vec![x + 1];
    // left identity
    assert_eq!(g(3), vec_bind(vec_unit(3), g));
    // right identity
    assert_eq!(vec![1, 2, 3], vec_bind(vec![1, 2, 3], vec_unit));
    // associativity
    assert_eq!(
        vec_bind(vec_bind(vec![1, 2], g), h),
        vec_bind(vec![1, 2], |x: i32| vec_bind(g(x), h))
    );
    let f = |v: i32| if v > 3 { Some(v) } else { None };
    assert_eq!(f(5), option_bind(option_unit(5), f));
    assert_eq!(Some(8), option_bind(Some(8), option_unit));
    // filtering keeps all or none
    assert_eq!(vec![1, 2], vec_filter(vec![1, 2], |_: &i32| true));
    assert_eq!(Vec::<i32>::new(), vec_filter(vec![1, 2], |_: &i32| false));
}
