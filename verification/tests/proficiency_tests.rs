use ttrpg_tool::proficiency::{Proficiencies, Proficiency, ProficiencyInstance};

fn craft() -> Proficiency {
    let mut p = Proficiency::new();
    p.name = "Craft".to_owned();
    p.requires_specification = true;
    p.max_level = 3;
    p.starting_throw = Some(14);
    p
}

#[test]
fn instance_of_a_proficiency() {
    let i = ProficiencyInstance::from_prof(craft());
    assert_eq!(i.prof_level, 0);
    assert_eq!(i.specification, Some(String::new()));
    assert_eq!(i.throw, Some(14));
    let j = ProficiencyInstance::from_prof(Proficiency::new());
    assert_eq!(j.specification, None);
    assert_eq!(j.throw, None);
}

#[test]
fn shown_with_specification_and_level() {
    let mut i = ProficiencyInstance::from_prof(craft());
    i.specification = Some("Jeweler".to_owned());
    assert_eq!(i.display(), "Craft (Jeweler)");
    i.prof_level = 1;
    assert_eq!(i.display(), "Craft (Jeweler) II");
    i.prof_level = 3;
    assert_eq!(i.display(), "Craft (Jeweler) IV");
    i.prof_level = 10;
    assert_eq!(i.display(), "Craft (Jeweler)");
    i.specification = None;
    i.prof_level = 2;
    assert_eq!(i.display(), "Craft III");
}

#[test]
fn held_by_id_and_specification() {
    let mut p = Proficiencies::new();
    assert!(p.insert(("craft".to_owned(), Some("jeweler".to_owned())), ProficiencyInstance::from_prof(craft())).is_none());
    assert!(p.contains("craft", &Some("jeweler".to_owned())));
    assert!(!p.contains("craft", &None));
    let mut second = ProficiencyInstance::from_prof(craft());
    second.prof_level = 2;
    let previous = p.insert(("craft".to_owned(), Some("jeweler".to_owned())), second).unwrap();
    assert_eq!(previous.prof_level, 0);
    assert_eq!(p.profs().len(), 1);
    assert_eq!(p.remove(&("craft".to_owned(), Some("jeweler".to_owned()))).unwrap().prof_level, 2);
    assert!(p.profs().is_empty());
    assert!(p.remove(&("craft".to_owned(), None)).is_none());
}
