use minicurl::tour::{
    methods, numbers_and_variables, structs_and_enums, traits, Animal, Cat, Point,
};

#[test]
fn tour_functions_run() {
    numbers_and_variables();
    structs_and_enums();
    methods();
    traits();
}

#[test]
fn point_new_and_get_x() {
    let p = Point::new(2, 3);
    assert_eq!(p.y, 3);
    assert_eq!(p.get_x(), 2);
}

#[test]
fn cat_meows_until_fed() {
    let mut roger = Cat::new("Roger".to_string());
    assert_eq!(roger.noise(), "Meow!");
    roger.feed();
    assert_eq!(roger.noise(), "Prrrrr...");
    assert_eq!(roger.name(), "Roger");
}
