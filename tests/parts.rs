use coocoo::deps::DependencyGraph;
use coocoo::image_library::ImageLibrary;
use coocoo::instr::Instr;
use coocoo::memory::{Memory, MemoryValue};
use coocoo::symbol::{Image, LibraryTracker, MaterialInfo};

fn s(x: &str) -> String {
    x.to_string()
}

#[test]
fn anonymous_ids_are_keyed_by_decimal_text() {
    let mut t = LibraryTracker::new();
    t.add_image(None, None);
    t.add_image(None, None);
    assert_eq!(t.find_image(&s("0")).map(|i| i.id), Some(0));
    assert_eq!(t.find_image(&s("1")).map(|i| i.id), Some(1));
    assert_eq!(t.get_next_image_id(), 2);
    t.add_image(Some(s("last")), None);
    assert_eq!(t.find_image(&s("last")).map(|i| i.id), Some(1));
    t.add_image(Some(s("far")), Some(Image::new(7)));
    assert_eq!(t.get_next_image_id(), 8);
}

#[test]
fn export_keeps_first_position() {
    let mut t = LibraryTracker::new();
    t.add_image(Some(s("a")), Some(Image::new(0)));
    t.add_image(Some(s("b")), Some(Image::new(1)));
    t.add_export_image(s("b"));
    t.add_export_image(s("a"));
    t.add_image(Some(s("b")), Some(Image::new(0)));
    t.add_export_image(s("b"));
    t.add_export_image(s("missing"));
    assert_eq!(t.export_textures(), vec![(0, s("b")), (0, s("a"))]);
}

#[test]
fn channel_lookup() {
    let info = MaterialInfo::new();
    assert_eq!(info.find_channel_index(&s("PBRMetalness"), &s("diffuse")), Ok(0));
    assert_eq!(info.find_channel_index(&s("PBRSpecular"), &s("glosiness")), Ok(4));
    assert_eq!(info.find_channel_index(&s("UnityStandardSpecular"), &s("emissive")), Ok(5));
    assert_eq!(info.find_channel_index(&s("UnityStandardSpecular"), &s("cavity")), Err(()));
    assert_eq!(info.find_channel_index(&s("Lambert"), &s("diffuse")), Err(()));
    assert_eq!(info.get_material_type_id(&s("PBRSpecular")), Ok(1));
    assert_eq!(info.get_material_channels(&s("UnityStandardSpecular")).unwrap().len(), 6);
}

#[test]
fn store_uses_cursor_and_advances() {
    let mut mem = Memory::new(3);
    let mut code = Vec::new();
    let r = mem.store(&mut code, None, &vec![MemoryValue::Const(1), MemoryValue::Local(2)]);
    assert_eq!(r, (3, 0));
    assert_eq!(mem.cursor_offset(), 8);
    let r = mem.store(&mut code, Some(100), &vec![MemoryValue::Const(9)]);
    assert_eq!(r, (3, 100));
    assert_eq!(mem.cursor_offset(), 104);
    assert_eq!(
        code,
        vec![
            Instr::Const(0),
            Instr::Const(1),
            Instr::Store,
            Instr::Const(4),
            Instr::LocalGet(2),
            Instr::Store,
            Instr::Const(100),
            Instr::Const(9),
            Instr::Store,
        ]
    );
}

#[test]
fn copy_is_unrolled() {
    let mem = Memory::new(0);
    let mut code = Vec::new();
    mem.copy(&mut code, 128, 0, 2);
    assert_eq!(
        code,
        vec![
            Instr::Const(128),
            Instr::Const(0),
            Instr::Load,
            Instr::Store,
            Instr::Const(132),
            Instr::Const(4),
            Instr::Load,
            Instr::Store,
        ]
    );
}

#[test]
fn dependency_graph_finds_cycles() {
    let mut g = DependencyGraph::new();
    assert!(g.add_alias(&s("a"), &s("b")));
    assert!(g.add_alias(&s("c"), &s("a")));
    assert!(g.add_alias(&s("d"), &s("b")));
    assert!(g.depends_on(&s("c"), &s("b")));
    assert!(!g.depends_on(&s("b"), &s("c")));
    assert!(!g.add_alias(&s("b"), &s("c")));
    assert!(!g.add_alias(&s("x"), &s("x")));
    assert!(g.add_alias(&s("b"), &s("d")) == false);
    assert!(g.add_alias(&s("e"), &s("d")));
}

#[test]
fn image_library_assigns_sequential_ids() {
    let mut lib = ImageLibrary::new();
    assert_eq!(lib.add_image(s("a"), 2, 1, vec![1, 2, 3, 4, 5, 6]), 0);
    assert_eq!(lib.add_image(s("b"), 1, 1, vec![9, 9, 9]), 1);
    assert_eq!(lib.get_content().len(), 2);
    assert_eq!(lib.get_image_data(1).map(|d| d.pixels.clone()), Some(vec![9, 9, 9]));
    assert!(lib.get_image_data(2).is_none());
    assert!(lib.get_image_data(-1).is_none());
    let copy = lib.get_image_data(0).unwrap().clone();
    assert_eq!((copy.name.as_str(), copy.width, copy.height), ("a", 2, 1));
    lib.reset();
    assert!(lib.get_content().is_empty());
    assert_eq!(lib.add_image(s("c"), 1, 1, vec![0, 0, 0]), 0);
}

#[test]
fn image_library_export_renames() {
    let mut lib = ImageLibrary::new();
    lib.add_image(s("a"), 1, 1, vec![1, 1, 1]);
    lib.add_image(s("b"), 1, 1, vec![2, 2, 2]);
    let out = lib.export(&vec![(s("result"), 1), (s("gone"), 7), (s("first"), 0)]);
    let names: Vec<(String, String, u8)> =
        out.iter().map(|(k, d)| (k.clone(), d.name.clone(), d.pixels[0])).collect();
    assert_eq!(names, vec![(s("result"), s("result"), 2), (s("first"), s("first"), 1)]);
}
