use hierarchy::{vsize, ClassInfo, Handle, Object, Vt, OBJECT_ID};

const ANIMAL: u64 = 1;
const DOG: u64 = 2;
const CAT: u64 = 3;
const PUPPY: u64 = 4;

struct Pet {
    name: &'static str,
}

type Speak = fn(&Pet) -> String;

fn stub(_: &Pet) -> String {
    String::from("object")
}

fn generic_sound(_: &Pet) -> String {
    String::from("generic sound")
}

fn bark(_: &Pet) -> String {
    String::from("bark")
}

fn dog_level(p: &Pet) -> String {
    format!("dog {}", p.name)
}

fn cat_level(p: &Pet) -> String {
    format!("cat {}", p.name)
}

fn puppy_level(p: &Pet) -> String {
    format!("puppy {}", p.name)
}

fn root() -> ClassInfo<Speak> {
    Object::info(stub as Speak)
}

fn animal(root: &ClassInfo<Speak>) -> ClassInfo<Speak> {
    ClassInfo::derive(root, ANIMAL, Vt::new(generic_sound as Speak, root.vtable()))
}

fn dog(animal: &ClassInfo<Speak>) -> ClassInfo<Speak> {
    let vt = Vt::new(dog_level as Speak, animal.vtable()).override_level(1, bark as Speak);
    ClassInfo::derive(animal, DOG, vt)
}

fn cat(animal: &ClassInfo<Speak>) -> ClassInfo<Speak> {
    ClassInfo::derive(animal, CAT, Vt::new(cat_level as Speak, animal.vtable()))
}

fn speak(f: &Speak, p: &Pet) -> String {
    f(p)
}

#[test]
fn dog_upcast_to_animal_barks() {
    let r = root();
    let a = animal(&r);
    let d = dog(&a);
    let h = Handle::new(Pet { name: "rex" }, &d);
    let h = h.upcast(&a);
    assert_eq!(h.level(), 1);
    assert_eq!(speak(h.dynamic_view(), h.get()), "bark");
}

#[test]
fn plain_animal_gives_generic_sound() {
    let r = root();
    let a = animal(&r);
    let h = Handle::new(Pet { name: "any" }, &a);
    assert_eq!(speak(h.dynamic_view(), h.get()), "generic sound");
}

#[test]
fn dog_keeps_own_level_and_root_level() {
    let r = root();
    let a = animal(&r);
    let d = dog(&a);
    let h = Handle::new(Pet { name: "rex" }, &d);
    assert_eq!(speak(h.dynamic_view(), h.get()), "dog rex");
    let h = h.upcast(&r);
    assert_eq!(h.level(), 0);
    assert_eq!(speak(h.dynamic_view(), h.get()), "object");
}

#[test]
fn sibling_downcast_fails_and_returns_handle() {
    let r = root();
    let a = animal(&r);
    let d = dog(&a);
    let c = cat(&a);
    let h = Handle::new(Pet { name: "rex" }, &d).upcast(&a);
    let h = match h.downcast(&c) {
        Ok(_) => panic!("a dog is no cat"),
        Err(h) => h,
    };
    assert_eq!(h.level(), 1);
    assert_eq!(h.info().id(), DOG);
    assert_eq!(h.get().name, "rex");
    assert_eq!(speak(h.dynamic_view(), h.get()), "bark");
}

#[test]
fn round_trip_through_root() {
    let r = root();
    let a = animal(&r);
    let d = dog(&a);
    let h = Handle::new(Pet { name: "rex" }, &d);
    let h = h.upcast(&r);
    let h = match h.downcast(&d) {
        Ok(h) => h,
        Err(_) => panic!("a dog is a dog"),
    };
    assert_eq!(h.level(), 2);
    assert_eq!(h.info().id(), DOG);
    assert_eq!(speak(h.dynamic_view(), h.get()), "dog rex");
    assert_eq!(h.into_inner().name, "rex");
}

#[test]
fn downcast_to_middle_level() {
    let r = root();
    let a = animal(&r);
    let d = dog(&a);
    let h = Handle::new(Pet { name: "rex" }, &d).upcast(&r);
    let h = match h.downcast(&a) {
        Ok(h) => h,
        Err(_) => panic!("a dog is an animal"),
    };
    assert_eq!(h.level(), 1);
    assert_eq!(speak(h.dynamic_view(), h.get()), "bark");
}

#[test]
fn root_to_root_downcast_succeeds() {
    let r = root();
    let a = animal(&r);
    let c = cat(&a);
    let h = Handle::new(Pet { name: "tom" }, &c).upcast(&r);
    let h = match h.downcast(&r) {
        Ok(h) => h,
        Err(_) => panic!("everything is an object"),
    };
    assert_eq!(h.level(), 0);
    let o = Handle::new(Pet { name: "o" }, &r);
    assert!(o.downcast(&r).is_ok());
}

#[test]
fn root_descriptor_is_trivial() {
    let r = root();
    assert_eq!(r.depth(), 0);
    assert_eq!(r.id(), OBJECT_ID);
    assert_eq!(vsize(r.vtable()), 1);
    assert!(r.downable(OBJECT_ID));
    assert!(!r.downable(ANIMAL));
}

#[test]
fn depth_grows_by_one() {
    let r = root();
    let a = animal(&r);
    let d = dog(&a);
    let p = ClassInfo::derive(&d, PUPPY, Vt::new(puppy_level as Speak, d.vtable()));
    assert_eq!(a.depth(), 1);
    assert_eq!(d.depth(), 2);
    assert_eq!(p.depth(), 3);
    assert_eq!(vsize(p.vtable()), 4);
    assert_eq!(p.find(DOG), Some(2));
    assert_eq!(p.find(CAT), None);
    assert!(p.downable(ANIMAL));
    assert!(!p.downable(CAT));
}

#[test]
fn override_seen_by_non_overriding_descendant() {
    let r = root();
    let a = animal(&r);
    let d = dog(&a);
    let p = ClassInfo::derive(&d, PUPPY, Vt::new(puppy_level as Speak, d.vtable()));
    let h = Handle::new(Pet { name: "bit" }, &p);
    assert_eq!(speak(h.dynamic_view(), h.get()), "puppy bit");
    let h = h.upcast(&d);
    assert_eq!(speak(h.dynamic_view(), h.get()), "dog bit");
    let h = h.upcast(&a);
    assert_eq!(speak(h.dynamic_view(), h.get()), "bark");
    let h = h.upcast(&r);
    assert_eq!(speak(h.dynamic_view(), h.get()), "object");
}

#[test]
fn table_slots_follow_override() {
    let r = root();
    let a = animal(&r);
    let d = dog(&a);
    let t = d.vtable();
    assert_eq!(vsize(t), 3);
    let pet = Pet { name: "x" };
    assert_eq!(speak(t.slot(0), &pet), "dog x");
    assert_eq!(speak(t.slot(1), &pet), "bark");
    assert_eq!(speak(t.slot(2), &pet), "object");
    let c = cat(&a);
    assert_eq!(speak(c.vtable().slot(1), &pet), "generic sound");
}

#[test]
fn override_own_level_and_root_level() {
    let r = root();
    let vt = Vt::new(generic_sound as Speak, r.vtable())
        .override_level(1, bark as Speak)
        .override_level(0, cat_level as Speak);
    let t = vt.into_inner();
    let pet = Pet { name: "z" };
    assert_eq!(vsize(&t), 2);
    assert_eq!(speak(t.slot(0), &pet), "bark");
    assert_eq!(speak(t.slot(1), &pet), "cat z");
}

#[test]
fn downcast_ref_checks_chain() {
    let r = root();
    let a = animal(&r);
    let d = dog(&a);
    let c = cat(&a);
    let h = Handle::new(Pet { name: "rex" }, &d).upcast(&r);
    assert!(h.downcast_ref(&c).is_none());
    let g = match h.downcast_ref(&d) {
        Some(g) => g,
        None => panic!("a dog is a dog"),
    };
    assert_eq!(g.level(), 2);
    assert_eq!(g.get().name, "rex");
    assert_eq!(speak(g.dynamic_view(), g.get()), "dog rex");
    assert_eq!(h.level(), 0);
}

#[test]
fn downcast_mut_writes_through() {
    let r = root();
    let a = animal(&r);
    let d = dog(&a);
    let c = cat(&a);
    let mut h = Handle::new(Pet { name: "rex" }, &d).upcast(&a);
    assert!(h.downcast_mut(&c).is_none());
    match h.downcast_mut(&d) {
        Some(g) => {
            let p = g.into_inner();
            p.name = "max";
        }
        None => panic!("a dog is a dog"),
    }
    assert_eq!(h.level(), 1);
    assert_eq!(h.get().name, "max");
    h.get_mut().name = "fido";
    assert_eq!(h.into_inner().name, "fido");
}

#[test]
fn handle_over_borrowed_pointers() {
    let r = root();
    let a = animal(&r);
    let d = dog(&a);
    let mut pet = Pet { name: "rex" };
    {
        let h = Handle::new(&mut pet, &d).upcast(&a);
        let p = h.into_inner();
        p.name = "max";
    }
    let h = Handle::new(&pet, &d).upcast(&r);
    assert_eq!(h.get().name, "max");
    assert_eq!(h.info().depth(), 2);
}
