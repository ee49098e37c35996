use macuru::examples::example1::{self, DataFunc, Empty, NonEmpty};
use macuru::examples::example2::{self, ShowData, A, B};
use macuru::examples::example4::{GenericNode, Leaf, Tree};
use macuru::examples::items::{self, Elem1, Elem2, Item};

fn holds(d: &example1::Data) -> Option<(String, usize)> {
    match d {
        example1::Data::Empty_(_) => None,
        example1::Data::NonEmpty_(n) => Some((n.name.clone(), n.value)),
    }
}

#[test]
fn data_add_and_remove() {
    let d1: example1::Data = Empty("data1".to_string()).into();
    assert!(d1.add(0).is_none());
    let d2 = d1.add(3).unwrap();
    assert_eq!(Some(("data1".to_string(), 3)), holds(&d2));
    let d3 = d2.add(2).unwrap();
    assert_eq!(Some(("data1".to_string(), 5)), holds(&d3));
    assert!(d3.remove(6).is_none());
    let d4 = d3.remove(4).unwrap();
    assert_eq!(Some(("data1".to_string(), 1)), holds(&d4));
    let d5 = d4.remove(1).unwrap();
    assert!(matches!(&d5, example1::Data::Empty_(Empty(n)) if n == "data1"));
    assert!(d5.remove(1).is_none());
}

#[test]
fn remove_undoes_add_on_values() {
    let n = NonEmpty { name: "n".to_string(), value: 4 };
    let added = n.add(7).unwrap();
    assert_eq!(Some(("n".to_string(), 11)), holds(&added));
    assert_eq!(Some(("n".to_string(), 4)), holds(&added.remove(7).unwrap()));
    let e = Empty("e".to_string());
    let back = e.add(2).unwrap().remove(2).unwrap();
    assert!(matches!(back, example1::Data::Empty_(_)));
}

#[test]
fn show_and_convert() {
    let d1: example2::Data = A(12).into();
    assert_eq!("A(value=12)", d1.show());
    let a1 = A::try_from(d1).unwrap();
    assert_eq!("A(value=12)", a1.show());
    let a2 = a1.add(34);
    assert_eq!("A(value=46)", a2.show());
    let d2: example2::Data = a2.to_b().into();
    assert_eq!("B(value=46)", d2.show());
    assert!(A::try_from(d2).is_err());
    assert_eq!("-7", A(-7).to_b().0);
    assert_eq!("B(value=x)", B("x".to_string()).show());
}

fn leaf(v: usize) -> Tree<usize> {
    Leaf(v).into()
}

fn node(left: Tree<usize>, right: Option<Tree<usize>>) -> Tree<usize> {
    GenericNode { left: Box::new(left), right: right.map(Box::new) }.into()
}

#[test]
fn tree_values_in_order() {
    let t1: Tree<usize> = GenericNode { left: Box::new(leaf(1)), right: Some(Box::new(leaf(2))) }.into();
    assert_eq!(vec![1, 2], t1.values());
    let t2 = node(
        node(
            node(node(leaf(1), None), Some(node(leaf(2), Some(leaf(3))))),
            Some(node(leaf(40), Some(leaf(50)))),
        ),
        Some(node(node(leaf(210), Some(leaf(220))), None)),
    );
    assert_eq!(vec![1, 2, 3, 40, 50, 210, 220], t2.values());
}

#[test]
fn items_add() {
    let d1: Item = items::A { name: "item-1".to_string() }.into();
    match d1.add(500) {
        Item::A_(a) => assert_eq!("item-1", a.name),
        _ => assert!(false),
    }
    let d2: Item = items::B { name: "item-2".to_string(), value: 123 }.into();
    match d2.add(500) {
        Item::B_(b) => assert_eq!(623, b.value),
        _ => assert!(false),
    }
}

#[test]
fn elements_convert_back() {
    let d3: items::Data = Elem1(5).into();
    assert_eq!(5, Elem1::try_from(d3).unwrap().0);
    let d4: items::Data = Elem2 { name: "def".into(), value: 7 }.into();
    assert!(Elem1::try_from(d4).is_err());
    let d5: items::Data = Elem2 { name: "def".into(), value: 7 }.into();
    assert_eq!(7, Elem2::try_from(d5).unwrap().value);
}
