use playground::person::Person;

#[test]
fn new_keeps_name_and_age() {
    let p = Person::new("Ann".to_string(), 30);
    assert_eq!(p.name(), "Ann");
    assert_eq!(p.age(), 30);
}

#[test]
fn say_hi_greets_with_the_name() {
    let p = Person::new("Bob".to_string(), 5);
    assert_eq!(p.say_hi(), "I'm Bob");
}

#[test]
fn change_name_changes_only_the_name() {
    let mut p = Person::new("Bob".to_string(), 41);
    p.change_name("Carol".to_string());
    assert_eq!(p.name(), "Carol");
    assert_eq!(p.age(), 41);
    assert_eq!(p.say_hi(), "I'm Carol");
    assert_eq!(p.to_string(), "Person(Carol, 41)");
}

#[test]
fn displays_name_and_age() {
    assert_eq!(Person::new("Zed".to_string(), -2).to_string(), "Person(Zed, -2)");
    assert_eq!(Person::new(String::new(), 0).to_string(), "Person(, 0)");
}
