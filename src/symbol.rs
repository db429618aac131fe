use vstd::prelude::*;

use crate::bindings::{order_get, order_insert, Bindings};
use crate::instr::ValType;

verus! {

/// Words in one material record, whatever its type.
pub const MATERIAL_WORDS: u32 = 32;

/// Header words of a material record: width and height.
pub const MATERIAL_HEADER_WORDS: u32 = 2;

/// Channels that fit in a material record after its header.
pub const MATERIAL_CHANNELS: u32 = 30;

/// Host-registry handle of an image.
#[derive(Clone, Copy, Debug, PartialEq, Eq, Structural)]
pub struct Image {
    pub id: i32,
}

impl Image {
    pub fn new(image_id: i32) -> (r: Image)
        ensures
            r.id == image_id,
    {
        Image { id: image_id }
    }

    pub fn copy(&self) -> (r: Image)
        ensures
            r == *self,
    {
        Image { id: self.id }
    }
}

/// What a name is bound to, as a mathematical value.
pub enum AttrView {
    Number(u32),
    Image(u32, Option<Image>),
    Material(u32, u32, Seq<char>),
    Func(u32, Seq<ValType>, Seq<ValType>),
    Empty,
    Error,
}

/// What a name is bound to.
pub enum Attribute {
    /// A number held in a local slot.
    Number(u32),
    /// An image handle held in a local slot, with its registry id when known.
    Image(u32, Option<Image>),
    /// A material record: memory id, byte offset, material type name.
    Material(u32, u32, String),
    /// An imported function: index, parameter types, result types.
    Func(u32, Vec<ValType>, Vec<ValType>),
    Empty,
    Error,
}

impl View for Attribute {
    type V = AttrView;

    open spec fn view(&self) -> AttrView {
        match self {
            Attribute::Number(l) => AttrView::Number(*l),
            Attribute::Image(l, meta) => AttrView::Image(*l, *meta),
            Attribute::Material(m, off, t) => AttrView::Material(*m, *off, t@),
            Attribute::Func(f, params, results) => AttrView::Func(*f, params@, results@),
            Attribute::Empty => AttrView::Empty,
            Attribute::Error => AttrView::Error,
        }
    }
}

/// The decimal digits of `n`, without leading zeros.
pub open spec fn natural_text(n: nat) -> Seq<char>
    decreases n,
{
    let digits = seq!['0', '1', '2', '3', '4', '5', '6', '7', '8', '9'];
    if n < 10 {
        seq![digits[n as int]]
    } else {
        natural_text(n / 10).push(digits[(n % 10) as int])
    }
}

/// Text of an integer in decimal: a `-` for a negative one, then its digits.
pub open spec fn decimal_text(n: i32) -> Seq<char> {
    if n < 0 {
        seq!['-'] + natural_text((-n) as nat)
    } else {
        natural_text(n as nat)
    }
}

/// Relies on `i32::to_string`: the number in decimal, with a leading `-`
/// when negative.
#[verifier::external_body]
fn decimal_string(n: i32) -> (r: String)
    ensures
        r@ == decimal_text(n),
{
    n.to_string()
}

/// Copies a string; the copy has the same characters.
pub fn copy_string(s: &String) -> (r: String)
    ensures
        r@ == s@,
{
    s.clone()
}

/// A string with the characters of `s`.
pub fn text(s: &str) -> (r: String)
    ensures
        r@ == s@,
{
    <String as vstd::string::StringExecFns>::from_str(s)
}

/// The channel names of each built-in material type, in record order.
pub open spec fn builtin_schemas() -> Map<Seq<char>, (i32, Seq<Seq<char>>)> {
    map![
        "PBRMetalness"@ => (0i32, seq![
            "diffuse"@, "metalness"@, "normal"@, "transparency"@, "roughness"@,
            "ao"@, "displacement"@, "emissive"@, "cavity"@, "subsurfance_scattering"@,
        ]),
        "PBRSpecular"@ => (1i32, seq![
            "albedo"@, "specular"@, "normal"@, "transparency"@, "glosiness"@,
            "ao"@, "displacement"@, "emissive"@, "cavity"@, "subsurfance_scattering"@,
        ]),
        "UnityStandardSpecular"@ => (2i32, seq![
            "albedo"@, "specular"@, "normal"@, "height"@, "ao"@, "emissive"@,
        ]),
    ]
}

pub open spec fn strings_view(v: Seq<String>) -> Seq<Seq<char>> {
    v.map_values(|s: String| s@)
}

pub open spec fn strs_view(v: Seq<&str>) -> Seq<Seq<char>> {
    v.map_values(|s: &str| s@)
}

/// `i` is the first position of `c` in `s`.
pub open spec fn is_first_index(s: Seq<Seq<char>>, c: Seq<char>, i: int) -> bool {
    &&& 0 <= i < s.len()
    &&& s[i] == c
    &&& forall|j: int| 0 <= j < i ==> s[j] != c
}

/// The registry of material types: for each type name, its id and its
/// ordered channel names.
pub struct MaterialInfo {
    channel_info: Bindings<(i32, Vec<String>)>,
}

impl MaterialInfo {
    pub closed spec fn schemas(&self) -> Map<Seq<char>, (i32, Seq<Seq<char>>)> {
        Map::new(
            |k: Seq<char>| self.channel_info@.contains_key(k),
            |k: Seq<char>| (self.channel_info@[k].0, strings_view(self.channel_info@[k].1@)),
        )
    }

    pub closed spec fn wf(&self) -> bool {
        &&& self.channel_info.wf()
        &&& forall|k: Seq<char>|
            #[trigger] self.channel_info@.contains_key(k) ==> self.channel_info@[k].1@.len()
                <= MATERIAL_CHANNELS
    }

    fn add_schema(&mut self, name: &str, id: i32, channels: Vec<String>)
        requires
            old(self).wf(),
            channels@.len() <= MATERIAL_CHANNELS,
        ensures
            final(self).wf(),
            final(self).schemas() == old(self).schemas().insert(
                name@,
                (id, strings_view(channels@)),
            ),
    {
        self.channel_info.insert(text(name), (id, channels));
        assert(self.schemas() =~= old(self).schemas().insert(name@, (id, strings_view(channels@))));
    }

    fn channel_list(names: &[&str]) -> (r: Vec<String>)
        ensures
            strings_view(r@) == strs_view(names@),
            r@.len() == names@.len(),
    {
        let mut r: Vec<String> = Vec::new();
        let mut i: usize = 0;
        while i < names.len()
            invariant
                i <= names@.len(),
                r@.len() == i,
                strings_view(r@) == strs_view(names@.subrange(0, i as int)),
            decreases names@.len() - i,
        {
            let ghost prev = r@;
            let t = text(names[i]);
            r.push(t);
            assert forall|j: int| 0 <= j < i + 1 implies #[trigger] strings_view(r@)[j] == strs_view(
                names@.subrange(0, i + 1),
            )[j] by {
                if j < i {
                    assert(strings_view(prev)[j] == strs_view(names@.subrange(0, i as int))[j]);
                }
            }
            assert(strings_view(r@).len() == strs_view(names@.subrange(0, i + 1)).len());
            assert(strings_view(r@) =~= strs_view(names@.subrange(0, i + 1)));
            i = i + 1;
        }
        assert(names@.subrange(0, names@.len() as int) =~= names@);
        r
    }

    pub fn new() -> (r: MaterialInfo)
        ensures
            r.wf(),
            r.schemas() == builtin_schemas(),
    {
        proof {
            reveal_strlit("PBRMetalness");
            reveal_strlit("PBRSpecular");
            reveal_strlit("UnityStandardSpecular");
            assert("PBRMetalness"@.len() == 12);
            assert("PBRSpecular"@.len() == 11);
            assert("PBRMetalness"@ != "PBRSpecular"@);
            assert("PBRMetalness"@ != "UnityStandardSpecular"@);
            assert("PBRSpecular"@ != "UnityStandardSpecular"@);
        }
        let mut info = MaterialInfo { channel_info: Bindings::new() };
        assert(info.schemas() =~= Map::empty());
        let metalness = ["diffuse", "metalness", "normal", "transparency", "roughness", "ao",
            "displacement", "emissive", "cavity", "subsurfance_scattering"];
        let c = Self::channel_list(&metalness);
        assert(strings_view(c@) =~= builtin_schemas()["PBRMetalness"@].1);
        info.add_schema("PBRMetalness", 0, c);
        let specular = ["albedo", "specular", "normal", "transparency", "glosiness", "ao",
            "displacement", "emissive", "cavity", "subsurfance_scattering"];
        let c = Self::channel_list(&specular);
        assert(strings_view(c@) =~= builtin_schemas()["PBRSpecular"@].1);
        info.add_schema("PBRSpecular", 1, c);
        let unity = ["albedo", "specular", "normal", "height", "ao", "emissive"];
        let c = Self::channel_list(&unity);
        assert(strings_view(c@) =~= builtin_schemas()["UnityStandardSpecular"@].1);
        info.add_schema("UnityStandardSpecular", 2, c);
        assert(info.schemas() =~= builtin_schemas());
        info
    }

    pub fn find_channel_index(&self, material_type: &String, channel: &String) -> (r: Result<
        u32,
        (),
    >)
        requires
            self.wf(),
        ensures
            r.is_ok() == (self.schemas().contains_key(material_type@) && self.schemas()[material_type@].1.contains(channel@)),
            r matches Ok(i) ==> is_first_index(
                self.schemas()[material_type@].1,
                channel@,
                i as int,
            ),
    {
        match self.channel_info.get(material_type) {
            Some(entry) => {
                let channels = &entry.1;
                assert(self.schemas().contains_key(material_type@));
                let ghost names = strings_view(channels@);
                let mut i: usize = 0;
                while i < channels.len()
                    invariant
                        i <= channels@.len(),
                        names == strings_view(channels@),
                        self.schemas().contains_key(material_type@),
                        names == self.schemas()[material_type@].1,
                        channels@.len() <= MATERIAL_CHANNELS,
                        forall|j: int| 0 <= j < i ==> names[j] != channel@,
                    decreases channels@.len() - i,
                {
                    if channels[i] == *channel {
                        assert(names[i as int] == channel@);
                        assert(names.contains(channel@));
                        return Ok(i as u32);
                    }
                    i = i + 1;
                }
                Err(())
            },
            None => Err(()),
        }
    }

    pub fn get_material_channels(&self, material_type: &String) -> (r: Result<Vec<String>, ()>)
        requires
            self.wf(),
        ensures
            r.is_ok() == self.schemas().contains_key(material_type@),
            r matches Ok(v) ==> strings_view(v@) == self.schemas()[material_type@].1,
    {
        match self.channel_info.get(material_type) {
            Some(entry) => {
                let channels = &entry.1;
                let mut out: Vec<String> = Vec::new();
                let mut i: usize = 0;
                while i < channels.len()
                    invariant
                        i <= channels@.len(),
                        out@.len() == i,
                        forall|j: int| 0 <= j < i ==> #[trigger] out@[j]@ == channels@[j]@,
                    decreases channels@.len() - i,
                {
                    out.push(copy_string(&channels[i]));
                    i = i + 1;
                }
                assert(strings_view(out@) =~= strings_view(channels@));
                Ok(out)
            },
            None => Err(()),
        }
    }

    pub fn get_material_type_id(&self, material_type: &String) -> (r: Result<i32, ()>)
        requires
            self.wf(),
        ensures
            r.is_ok() == self.schemas().contains_key(material_type@),
            r matches Ok(id) ==> id == self.schemas()[material_type@].0,
    {
        match self.channel_info.get(material_type) {
            Some(entry) => Ok(entry.0),
            None => Err(()),
        }
    }
}

/// The tracker's contents as mathematical values.
pub struct TrackerView {
    /// The registry id each image name stands for.
    pub images: Map<Seq<char>, Image>,
    /// The id the next anonymous image will get.
    pub next_id: i32,
    /// Images marked for export, name and id, in the order first marked.
    pub exports: Seq<(Seq<char>, i32)>,
    /// Declared materials, name to byte offset and type, in declaration order.
    pub materials: Seq<(Seq<char>, (u32, Seq<char>))>,
}

/// The tracker after recording an image id (see `LibraryTracker::add_image`).
pub open spec fn with_image(v: TrackerView, name: Option<Seq<char>>, image: Option<Image>) -> TrackerView {
    match (name, image) {
        (Some(n), Some(img)) => TrackerView {
            images: v.images.insert(n, img),
            next_id: if img.id >= v.next_id {
                (img.id + 1) as i32
            } else {
                v.next_id
            },
            ..v
        },
        (Some(n), None) => TrackerView {
            images: v.images.insert(n, Image { id: (v.next_id - 1) as i32 }),
            ..v
        },
        (None, None) => TrackerView {
            images: v.images.insert(decimal_text(v.next_id), Image { id: v.next_id }),
            next_id: (v.next_id + 1) as i32,
            ..v
        },
        (None, Some(_)) => v,
    }
}

/// The tracker after marking `name` for export: its entry takes the name's
/// current id, in place if present, else at the end. A name without an id
/// changes nothing.
pub open spec fn with_export(v: TrackerView, name: Seq<char>) -> TrackerView {
    if v.images.contains_key(name) {
        TrackerView { exports: order_insert(v.exports, name, v.images[name].id), ..v }
    } else {
        v
    }
}

/// The tracker after declaring material `name` at `offset` with type `t`.
pub open spec fn with_material(v: TrackerView, name: Seq<char>, offset: u32, t: Seq<char>) -> TrackerView {
    TrackerView { materials: order_insert(v.materials, name, (offset, t)), ..v }
}

/// The tracker after setting the type of material `name`; one not yet
/// declared gets offset 0.
pub open spec fn with_material_type(v: TrackerView, name: Seq<char>, t: Seq<char>) -> TrackerView {
    let offset = match order_get(v.materials, name) {
        Some(entry) => entry.0,
        None => 0,
    };
    with_material(v, name, offset, t)
}

/// Bookkeeping of image ids, exported images and declared materials.
pub struct LibraryTracker {
    images: Bindings<Image>,
    next_image_id: i32,
    texture_exports: Bindings<i32>,
    material_info: MaterialInfo,
    materials: Bindings<(u32, String)>,
}

pub open spec fn material_entries(o: Seq<(Seq<char>, (u32, String))>) -> Seq<(Seq<char>, (u32, Seq<char>))> {
    o.map_values(|p: (Seq<char>, (u32, String))| (p.0, (p.1.0, p.1.1@)))
}

impl View for LibraryTracker {
    type V = TrackerView;

    closed spec fn view(&self) -> TrackerView {
        TrackerView {
            images: self.images@,
            next_id: self.next_image_id,
            exports: self.texture_exports.order(),
            materials: material_entries(self.materials.order()),
        }
    }
}

impl LibraryTracker {
    pub closed spec fn info(&self) -> MaterialInfo {
        self.material_info
    }

    pub closed spec fn wf(&self) -> bool {
        &&& self.images.wf()
        &&& self.texture_exports.wf()
        &&& self.materials.wf()
        &&& self.material_info.wf()
        &&& self.material_info.schemas() == builtin_schemas()
        &&& self.next_image_id >= 0
    }

    pub fn new() -> (r: LibraryTracker)
        ensures
            r.wf(),
            r@ == (TrackerView {
                images: Map::empty(),
                next_id: 0,
                exports: Seq::empty(),
                materials: Seq::empty(),
            }),
    {
        let r = LibraryTracker {
            images: Bindings::new(),
            next_image_id: 0,
            texture_exports: Bindings::new(),
            material_info: MaterialInfo::new(),
            materials: Bindings::new(),
        };
        assert(r@.materials =~= Seq::empty());
        r
    }

    pub fn material_info(&self) -> (r: &MaterialInfo)
        requires
            self.wf(),
        ensures
            *r == self.info(),
            r.wf(),
            r.schemas() == builtin_schemas(),
    {
        &self.material_info
    }

    /// Records an image id. With a name and an id, binds the name to the id
    /// and raises the next id past it. With a name alone, binds the name to
    /// the most recently allocated id. With neither, allocates a new id under
    /// its own decimal text.
    pub fn add_image(&mut self, name: Option<String>, image: Option<Image>)
        requires
            old(self).wf(),
            image matches Some(img) ==> img.id < i32::MAX,
            name is None && image is None ==> old(self)@.next_id < i32::MAX,
        ensures
            final(self).wf(),
            final(self).info() == old(self).info(),
            final(self)@ == with_image(old(self)@, name_view(name), image),
    {
        match (name, image) {
            (Some(n), Some(img)) => {
                self.images.insert(n, Image::new(img.id));
                if img.id >= self.next_image_id {
                    self.next_image_id = img.id + 1;
                }
            },
            (Some(n), None) => {
                self.images.insert(n, Image::new(self.next_image_id - 1));
            },
            (None, None) => {
                let key = decimal_string(self.next_image_id);
                self.images.insert(key, Image::new(self.next_image_id));
                self.next_image_id = self.next_image_id + 1;
            },
            (None, Some(_)) => {},
        }
    }

    pub fn find_image(&self, name: &String) -> (r: Option<&Image>)
        requires
            self.wf(),
        ensures
            r.is_some() == self@.images.contains_key(name@),
            r matches Some(img) ==> *img == self@.images[name@],
    {
        self.images.get(name)
    }

    pub fn get_next_image_id(&self) -> (r: i32)
        ensures
            r == self@.next_id,
    {
        self.next_image_id
    }

    /// Marks the image bound to `image_name` for export, under its current
    /// id. A name marked twice has one entry, with the later id.
    pub fn add_export_image(&mut self, image_name: String)
        requires
            old(self).wf(),
        ensures
            final(self).wf(),
            final(self).info() == old(self).info(),
            final(self)@ == with_export(old(self)@, image_name@),
    {
        let id = match self.images.get(&image_name) {
            Some(image) => image.id,
            None => {
                return ;
            },
        };
        self.texture_exports.insert(image_name, id);
    }

    /// The exported images as (id, name) pairs, in the order first marked.
    pub fn export_textures(&self) -> (r: Vec<(i32, String)>)
        requires
            self.wf(),
        ensures
            r@.len() == self@.exports.len(),
            forall|i: int|
                0 <= i < r@.len() ==> (#[trigger] r@[i]).0 == self@.exports[i].1 && r@[i].1@
                    == self@.exports[i].0,
    {
        let mut r: Vec<(i32, String)> = Vec::new();
        let mut i: usize = 0;
        while i < self.texture_exports.len()
            invariant
                i <= self@.exports.len(),
                r@.len() == i,
                forall|j: int|
                    0 <= j < i ==> (#[trigger] r@[j]).0 == self@.exports[j].1 && r@[j].1@
                        == self@.exports[j].0,
            decreases self@.exports.len() - i,
        {
            let name = copy_string(self.texture_exports.name_at(i));
            let id = *self.texture_exports.value_at(i);
            r.push((id, name));
            i = i + 1;
        }
        r
    }

    /// The channel exports of every declared material.
    pub fn export_materials(&self) -> (r: Vec<MaterialChannel>)
        requires
            self.wf(),
        ensures
            r@.map_values(|c: MaterialChannel| channel_view(c)) == material_rows(self@.materials),
    {
        let ghost ms = self@.materials;
        let mut r: Vec<MaterialChannel> = Vec::new();
        let mut k: usize = 0;
        proof {
            assert(ms.subrange(0, 0) =~= Seq::<(Seq<char>, (u32, Seq<char>))>::empty());
            assert(r@.map_values(|c: MaterialChannel| channel_view(c)) =~= material_rows(ms.subrange(0, 0)));
        }
        while k < self.materials.len()
            invariant
                self.wf(),
                ms == self@.materials,
                k <= ms.len(),
                r@.map_values(|c: MaterialChannel| channel_view(c)) == material_rows(ms.subrange(0, k as int)),
            decreases ms.len() - k,
        {
            let name = self.materials.name_at(k);
            let entry = self.materials.value_at(k);
            let offset = entry.0;
            let ghost prefix = r@.map_values(|c: MaterialChannel| channel_view(c));
            let ghost t = entry.1@;
            proof {
                assert(ms[k as int] == (name@, (offset, t)));
                let sub = ms.subrange(0, k + 1);
                assert(sub.subrange(0, k as int) =~= ms.subrange(0, k as int));
                assert(sub[k as int] == ms[k as int]);
            }
            match self.material_info.get_material_channels(&entry.1) {
                Ok(channels) => {
                    let ghost rows = channel_rows(name@, offset, t);
                    let ghost start = r@.len();
                    assert(rows.len() == strings_view(channels@).len());
                    let mut i: usize = 0;
                    while i < channels.len()
                        invariant
                            channels@.len() <= MATERIAL_CHANNELS,
                            builtin_schemas().contains_key(t),
                            strings_view(channels@) == builtin_schemas()[t].1,
                            rows == channel_rows(name@, offset, t),
                            entry.1@ == t,
                            rows.len() == channels@.len(),
                            prefix.len() == start,
                            i <= channels@.len(),
                            r@.len() == start + i,
                            r@.map_values(|c: MaterialChannel| channel_view(c)) == prefix + rows.subrange(0, i as int),
                        decreases channels@.len() - i,
                    {
                        let ghost before = r@;
                        proof {
                            assert(strings_view(channels@)[i as int] == channels@[i as int]@);
                            assert(rows[i as int] == (
                                (offset / 4 + MATERIAL_HEADER_WORDS + i) as u32,
                                name@,
                                builtin_schemas()[t].1[i as int],
                                t,
                            ));
                        }
                        let row = MaterialChannel {
                            position: offset / 4 + MATERIAL_HEADER_WORDS + i as u32,
                            name: copy_string(name),
                            channel: copy_string(&channels[i]),
                            material_type: copy_string(&entry.1),
                        };
                        assert(row.position == (offset / 4 + MATERIAL_HEADER_WORDS + i) as u32);
                        assert(row.name@ == name@);
                        assert(row.channel@ == builtin_schemas()[t].1[i as int]);
                        assert(row.material_type@ == t);
                        assert(channel_view(row) == rows[i as int]);
                        r.push(row);
                        proof {
                            let now = r@.map_values(|c: MaterialChannel| channel_view(c));
                            let want = prefix + rows.subrange(0, i + 1);
                            assert(now[start + i] == want[start + i]);
                            assert forall|j: int| 0 <= j < start + i implies now[j] == want[j] by {
                                assert(r@[j] == before[j]);
                                assert(before.map_values(|c: MaterialChannel| channel_view(c))[j] == now[j]);
                            }
                            assert(r@.map_values(|c: MaterialChannel| channel_view(c)) =~= prefix + rows.subrange(0, i + 1));
                        }
                        i = i + 1;
                    }
                    assert(rows.subrange(0, channels@.len() as int) =~= rows);
                },
                Err(()) => {
                    assert(prefix =~= prefix + channel_rows(name@, offset, t));
                },
            }
            k = k + 1;
        }
        assert(ms.subrange(0, ms.len() as int) =~= ms);
        r
    }

    pub fn add_material(&mut self, name: String, offset: u32, material_type: String)
        requires
            old(self).wf(),
        ensures
            final(self).wf(),
            final(self).info() == old(self).info(),
            final(self)@ == with_material(old(self)@, name@, offset, material_type@),
    {
        let ghost n = name@;
        let ghost t = material_type@;
        let ghost pre = self.materials.order();
        self.materials.insert(name, (offset, material_type));
        proof {
            let post = self.materials.order();
            let want = order_insert(material_entries(pre), n, (offset, t));
            if exists|i: int| 0 <= i < pre.len() && pre[i].0 == n {
                let i = choose|i: int| 0 <= i < pre.len() && pre[i].0 == n;
                assert(material_entries(pre)[i].0 == n);
            } else {
                assert forall|i: int| 0 <= i < material_entries(pre).len() implies material_entries(pre)[i].0 != n by {
                    assert(pre[i].0 != n);
                }
            }
            assert(material_entries(post) =~= want);
        }
    }

    /// Sets the type of the material `name`; one not yet declared gets
    /// offset 0.
    pub fn update_material_type(&mut self, name: &String, new_material_type: String)
        requires
            old(self).wf(),
        ensures
            final(self).wf(),
            final(self).info() == old(self).info(),
            final(self)@ == with_material_type(old(self)@, name@, new_material_type@),
    {
        proof {
            self.materials.lemma_order_get(name@);
            let pre = self.materials.order();
            if exists|i: int| 0 <= i < pre.len() && pre[i].0 == name@ {
                let i = choose|i: int| 0 <= i < pre.len() && pre[i].0 == name@;
                assert(material_entries(pre)[i].0 == name@);
                let j = choose|j: int| 0 <= j < material_entries(pre).len() && material_entries(pre)[j].0 == name@;
                assert(pre[j].0 == name@);
            } else {
                assert forall|i: int| 0 <= i < material_entries(pre).len() implies material_entries(pre)[i].0 != name@ by {
                    assert(pre[i].0 != name@);
                }
            }
        }
        let offset = match self.materials.get(name) {
            Some(entry) => entry.0,
            None => 0,
        };
        self.add_material(copy_string(name), offset, new_material_type);
    }
}

/// One channel of a declared material, for the host: the memory word that
/// holds it, and the variable, channel and material type it belongs to.
pub struct MaterialChannel {
    pub position: u32,
    pub name: String,
    pub channel: String,
    pub material_type: String,
}

/// A material channel export as mathematical values.
pub open spec fn channel_view(c: MaterialChannel) -> (u32, Seq<char>, Seq<char>, Seq<char>) {
    (c.position, c.name@, c.channel@, c.material_type@)
}

/// The channel exports of material `name` at byte `offset` with type `t`:
/// channel `i` is held in word `offset / 4 + 2 + i`. A type without a schema
/// has none.
pub open spec fn channel_rows(name: Seq<char>, offset: u32, t: Seq<char>) -> Seq<
    (u32, Seq<char>, Seq<char>, Seq<char>),
> {
    if builtin_schemas().contains_key(t) {
        builtin_schemas()[t].1.map(
            |i: int, ch: Seq<char>| ((offset / 4 + MATERIAL_HEADER_WORDS + i) as u32, name, ch, t),
        )
    } else {
        seq![]
    }
}

/// The channel exports of all materials, in declaration order.
pub open spec fn material_rows(ms: Seq<(Seq<char>, (u32, Seq<char>))>) -> Seq<
    (u32, Seq<char>, Seq<char>, Seq<char>),
>
    decreases ms.len(),
{
    if ms.len() == 0 {
        seq![]
    } else {
        let m = ms[ms.len() - 1];
        material_rows(ms.subrange(0, ms.len() - 1)) + channel_rows(m.0, m.1.0, m.1.1)
    }
}

pub open spec fn name_view(name: Option<String>) -> Option<Seq<char>> {
    match name {
        Some(n) => Some(n@),
        None => None,
    }
}

/// The tracker after binding `name` to `a`.
pub open spec fn mirror_insert(v: TrackerView, name: Seq<char>, a: AttrView) -> TrackerView {
    match a {
        AttrView::Image(_, meta) => with_image(v, Some(name), meta),
        AttrView::Material(_, offset, t) => with_material(v, name, offset, t),
        _ => v,
    }
}

/// The tracker after rebinding `name` to `a`.
pub open spec fn mirror_update(v: TrackerView, name: Seq<char>, a: AttrView) -> TrackerView {
    match a {
        AttrView::Image(_, meta) => with_image(v, Some(name), meta),
        AttrView::Material(_, _, t) => with_material_type(v, name, t),
        _ => v,
    }
}

/// What a name bound to `a` asks of the tracker: an image id below the
/// largest one.
pub open spec fn attr_recordable(a: AttrView) -> bool {
    a matches AttrView::Image(_, Some(img)) ==> img.id < i32::MAX
}

/// Identifier bindings with no nested scopes: a later binding of a name
/// replaces the earlier one. Image and material bindings are mirrored into
/// the library tracker.
pub struct SymbolTable {
    table: Bindings<Attribute>,
    library_tracker: LibraryTracker,
}

impl SymbolTable {
    pub closed spec fn table(&self) -> Map<Seq<char>, AttrView> {
        Map::new(|k: Seq<char>| self.table@.contains_key(k), |k: Seq<char>| self.table@[k]@)
    }

    pub closed spec fn tracker(&self) -> TrackerView {
        self.library_tracker@
    }

    pub closed spec fn wf(&self) -> bool {
        &&& self.table.wf()
        &&& self.library_tracker.wf()
    }

    pub fn new() -> (r: SymbolTable)
        ensures
            r.wf(),
            r.table() == Map::<Seq<char>, AttrView>::empty(),
            r.tracker() == (TrackerView {
                images: Map::empty(),
                next_id: 0,
                exports: Seq::empty(),
                materials: Seq::empty(),
            }),
    {
        let r = SymbolTable { table: Bindings::new(), library_tracker: LibraryTracker::new() };
        assert(r.table() =~= Map::empty());
        r
    }

    pub fn library_tracker(&self) -> (r: &LibraryTracker)
        requires
            self.wf(),
        ensures
            r@ == self.tracker(),
            r.wf(),
    {
        &self.library_tracker
    }

    /// Binds `ident` to `attr`; an image or a material is recorded in the
    /// tracker too.
    pub fn insert(&mut self, ident: String, attr: Attribute)
        requires
            old(self).wf(),
            attr_recordable(attr@),
        ensures
            final(self).wf(),
            final(self).table() == old(self).table().insert(ident@, attr@),
            final(self).tracker() == mirror_insert(old(self).tracker(), ident@, attr@),
    {
        match &attr {
            Attribute::Image(_, meta) => {
                self.library_tracker.add_image(Some(copy_string(&ident)), *meta);
            },
            Attribute::Material(_, offset, material_type) => {
                self.library_tracker.add_material(
                    copy_string(&ident),
                    *offset,
                    copy_string(material_type),
                );
            },
            _ => {},
        }
        let ghost k = ident@;
        let ghost a = attr@;
        self.table.insert(ident, attr);
        assert(self.table() =~= old(self).table().insert(k, a));
    }

    pub fn lookup(&self, ident: &String) -> (r: Option<&Attribute>)
        requires
            self.wf(),
        ensures
            r.is_some() == self.table().contains_key(ident@),
            r matches Some(a) ==> a@ == self.table()[ident@],
    {
        self.table.get(ident)
    }

    /// Rebinds a name that is already bound; fails, changing nothing, on a
    /// name that is not.
    pub fn update(&mut self, ident: &String, new_attr: Attribute) -> (r: Result<(), ()>)
        requires
            old(self).wf(),
            attr_recordable(new_attr@),
        ensures
            final(self).wf(),
            r.is_ok() == old(self).table().contains_key(ident@),
            r.is_err() ==> final(self).table() == old(self).table() && final(self).tracker() == old(self).tracker(),
            r.is_ok() ==> final(self).table() == old(self).table().insert(ident@, new_attr@),
            r.is_ok() ==> final(self).tracker() == mirror_update(old(self).tracker(), ident@, new_attr@),
    {
        if self.table.get(ident).is_none() {
            return Err(());
        }
        match &new_attr {
            Attribute::Image(_, meta) => {
                self.library_tracker.add_image(Some(copy_string(ident)), *meta);
            },
            Attribute::Material(_, _, material_type) => {
                self.library_tracker.update_material_type(ident, copy_string(material_type));
            },
            _ => {},
        }
        let ghost a = new_attr@;
        self.table.insert(copy_string(ident), new_attr);
        assert(self.table() =~= old(self).table().insert(ident@, a));
        Ok(())
    }

    pub fn remove(&mut self, ident: &String)
        requires
            old(self).wf(),
        ensures
            final(self).wf(),
            final(self).table() == old(self).table().remove(ident@),
            final(self).tracker() == old(self).tracker(),
    {
        self.table.remove(ident);
        assert(self.table() =~= old(self).table().remove(ident@));
    }

    pub fn free(&mut self)
        requires
            old(self).wf(),
        ensures
            final(self).wf(),
            final(self).table() == Map::<Seq<char>, AttrView>::empty(),
            final(self).tracker() == old(self).tracker(),
    {
        self.table = Bindings::new();
        assert(self.table() =~= Map::empty());
    }

    /// Reserves a fresh image id for the result of a call.
    pub fn reserve_image(&mut self)
        requires
            old(self).wf(),
            old(self).tracker().next_id < i32::MAX,
        ensures
            final(self).wf(),
            final(self).table() == old(self).table(),
            final(self).tracker() == with_image(old(self).tracker(), None, None),
    {
        self.library_tracker.add_image(None, None);
    }

    /// Marks the image bound to `name` for export.
    pub fn export_image(&mut self, name: String)
        requires
            old(self).wf(),
        ensures
            final(self).wf(),
            final(self).table() == old(self).table(),
            final(self).tracker() == with_export(old(self).tracker(), name@),
    {
        self.library_tracker.add_export_image(name);
    }
}

} // verus!
