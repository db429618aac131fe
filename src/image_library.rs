use vstd::prelude::*;

use crate::symbol::copy_string;

verus! {

/// An image held by the host: its name, size and pixel bytes.
pub struct ImageData {
    pub name: String,
    pub width: i32,
    pub height: i32,
    pub pixels: Vec<u8>,
}

/// An image as mathematical values: name, width, height, pixels.
pub open spec fn image_view(d: ImageData) -> (Seq<char>, i32, i32, Seq<u8>) {
    (d.name@, d.width, d.height, d.pixels@)
}

pub fn copy_bytes(v: &Vec<u8>) -> (r: Vec<u8>)
    ensures
        r@ == v@,
{
    let mut r: Vec<u8> = Vec::new();
    let mut i: usize = 0;
    while i < v.len()
        invariant
            i <= v@.len(),
            r@ == v@.subrange(0, i as int),
        decreases v@.len() - i,
    {
        r.push(v[i]);
        assert(r@ =~= v@.subrange(0, i + 1));
        i = i + 1;
    }
    assert(r@ =~= v@);
    r
}

impl ImageData {
    pub fn new(name: String, width: i32, height: i32, pixels: Vec<u8>) -> (r: ImageData)
        ensures
            image_view(r) == (name@, width, height, pixels@),
    {
        ImageData { name, width, height, pixels }
    }

    /// A copy with the same name, size and pixels.
    pub fn clone(&self) -> (r: ImageData)
        ensures
            image_view(r) == image_view(*self),
    {
        ImageData::new(copy_string(&self.name), self.width, self.height, copy_bytes(&self.pixels))
    }
}

/// The host's image registry: image `k` is the `k`-th one added since the
/// last reset.
pub struct ImageLibrary {
    pub content: Vec<ImageData>,
    pub export_items: Vec<(i32, String)>,
}

/// The images to hand over for `info`: for each (name, id) whose id is
/// registered, that image under the given name, in the order of `info`.
pub open spec fn export_rows(content: Seq<(Seq<char>, i32, i32, Seq<u8>)>, info: Seq<(Seq<char>, i32)>) -> Seq<
    (Seq<char>, (Seq<char>, i32, i32, Seq<u8>)),
>
    decreases info.len(),
{
    if info.len() == 0 {
        seq![]
    } else {
        let last = info[info.len() - 1];
        let rest = export_rows(content, info.subrange(0, info.len() - 1));
        if 0 <= last.1 < content.len() {
            let d = content[last.1 as int];
            rest.push((last.0, (last.0, d.1, d.2, d.3)))
        } else {
            rest
        }
    }
}

impl ImageLibrary {
    pub open spec fn images(&self) -> Seq<(Seq<char>, i32, i32, Seq<u8>)> {
        self.content@.map_values(|d: ImageData| image_view(d))
    }

    pub fn new() -> (r: ImageLibrary)
        ensures
            r.images() == Seq::<(Seq<char>, i32, i32, Seq<u8>)>::empty(),
            r.export_items@ == Seq::<(i32, String)>::empty(),
    {
        let r = ImageLibrary { content: Vec::new(), export_items: Vec::new() };
        assert(r.images() =~= Seq::<(Seq<char>, i32, i32, Seq<u8>)>::empty());
        r
    }

    /// Registers an image and returns its id, the number of images before it.
    pub fn add_image(&mut self, name: String, width: i32, height: i32, pixels: Vec<u8>) -> (r: i32)
        requires
            old(self).images().len() < i32::MAX,
        ensures
            r == old(self).images().len(),
            final(self).images() == old(self).images().push((name@, width, height, pixels@)),
            final(self).export_items == old(self).export_items,
    {
        let id = self.content.len() as i32;
        self.content.push(ImageData::new(name, width, height, pixels));
        assert(self.images() =~= old(self).images().push(image_view(self.content@[id as int])));
        id
    }

    pub fn get_content(&self) -> (r: &Vec<ImageData>)
        ensures
            r@.map_values(|d: ImageData| image_view(d)) == self.images(),
    {
        &self.content
    }

    pub fn get_image_data(&self, image_id: i32) -> (r: Option<&ImageData>)
        ensures
            r.is_some() == (0 <= image_id < self.images().len()),
            r matches Some(d) ==> image_view(*d) == self.images()[image_id as int],
    {
        if 0 <= image_id && (image_id as usize) < self.content.len() {
            Some(&self.content[image_id as usize])
        } else {
            None
        }
    }

    /// Forgets every image and every export item.
    pub fn reset(&mut self)
        ensures
            final(self).images() == Seq::<(Seq<char>, i32, i32, Seq<u8>)>::empty(),
            final(self).export_items@ == Seq::<(i32, String)>::empty(),
    {
        self.content = Vec::new();
        self.export_items = Vec::new();
        assert(self.images() =~= Seq::<(Seq<char>, i32, i32, Seq<u8>)>::empty());
    }

    /// The registered images named in `export_info`, each under the name
    /// given there.
    pub fn export(&self, export_info: &Vec<(String, i32)>) -> (r: Vec<(String, ImageData)>)
        ensures
            r@.map_values(|p: (String, ImageData)| (p.0@, image_view(p.1))) == export_rows(
                self.images(),
                export_info@.map_values(|p: (String, i32)| (p.0@, p.1)),
            ),
    {
        let ghost info = export_info@.map_values(|p: (String, i32)| (p.0@, p.1));
        let mut r: Vec<(String, ImageData)> = Vec::new();
        let mut i: usize = 0;
        proof {
            assert(info.subrange(0, 0) =~= Seq::<(Seq<char>, i32)>::empty());
            assert(r@.map_values(|p: (String, ImageData)| (p.0@, image_view(p.1))) =~= seq![]);
        }
        while i < export_info.len()
            invariant
                i <= export_info@.len(),
                info == export_info@.map_values(|p: (String, i32)| (p.0@, p.1)),
                r@.map_values(|p: (String, ImageData)| (p.0@, image_view(p.1))) == export_rows(
                    self.images(),
                    info.subrange(0, i as int),
                ),
            decreases export_info@.len() - i,
        {
            let ghost before = r@.map_values(|p: (String, ImageData)| (p.0@, image_view(p.1)));
            proof {
                let sub = info.subrange(0, i + 1);
                assert(sub.subrange(0, i as int) =~= info.subrange(0, i as int));
                assert(sub[i as int] == info[i as int]);
            }
            let id = export_info[i].1;
            if 0 <= id && (id as usize) < self.content.len() {
                let d = &self.content[id as usize];
                let name = copy_string(&export_info[i].0);
                let copy = ImageData::new(copy_string(&name), d.width, d.height, copy_bytes(&d.pixels));
                r.push((name, copy));
                proof {
                    assert(self.images()[id as int] == image_view(*d));
                    assert(r@.map_values(|p: (String, ImageData)| (p.0@, image_view(p.1))) =~= before.push(
                        (info[i as int].0, (info[i as int].0, d.width, d.height, d.pixels@)),
                    ));
                }
            }
            i = i + 1;
        }
        proof {
            assert(info.subrange(0, export_info@.len() as int) =~= info);
        }
        r
    }
}

} // verus!
