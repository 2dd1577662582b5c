//! One type for an image of any of the containers.

use vstd::prelude::*;
use crate::filters::ImageFilter;
use crate::formats::bmp::Bmp;
use crate::formats::png::Png;
use crate::formats::ppm::Ppm;
use crate::formats::{Grid, ImageFormat};
use crate::models::{ImageType, Pixel};

verus! {

/// A decoded image, in the type of its container.
pub enum ImageData {
    Bmp(Bmp),
    Png(Png),
    Ppm(Ppm),
}

/// A decoded image of any container.
pub struct Image {
    pub raw: ImageData,
}

/// The container that a file name extension names.
pub open spec fn type_of_extension(ext: Seq<char>) -> Option<ImageType> {
    if ext == "bmp"@ {
        Some(ImageType::Bmp)
    } else if ext == "png"@ {
        Some(ImageType::Png)
    } else if ext == "ppm"@ {
        Some(ImageType::Ppm)
    } else {
        None
    }
}

fn same_text(a: &str, b: &str) -> (res: bool)
    ensures
        res == (a@ == b@),
{
    a.to_owned() == b.to_owned()
}

impl ImageType {
    /// The container that a file name extension names: `bmp`, `png` or
    /// `ppm`, in lower case.
    pub fn from_extension(ext: &str) -> (res: Option<ImageType>)
        ensures
            res == type_of_extension(ext@),
    {
        if same_text(ext, "bmp") {
            Some(ImageType::Bmp)
        } else if same_text(ext, "png") {
            Some(ImageType::Png)
        } else if same_text(ext, "ppm") {
            Some(ImageType::Ppm)
        } else {
            None
        }
    }
}

impl Image {
    /// Whether `data` is a file of the given container that decodes.
    pub open spec fn parsable(data: Seq<u8>, image_type: ImageType) -> bool {
        match image_type {
            ImageType::Bmp => Bmp::parsable(data),
            ImageType::Png => Png::parsable(data),
            ImageType::Ppm => Ppm::parsable(data),
        }
    }

    /// Whether the image is of the given container and holds what `data`
    /// says.
    pub open spec fn decodes(&self, data: Seq<u8>, image_type: ImageType) -> bool {
        match image_type {
            ImageType::Bmp => self.raw matches ImageData::Bmp(bmp) && bmp.decodes(data),
            ImageType::Png => self.raw matches ImageData::Png(png) && png.decodes(data),
            ImageType::Ppm => self.raw matches ImageData::Ppm(ppm) && ppm.decodes(data),
        }
    }

    /// Decodes a file of the given container.
    pub fn load_image(data: &[u8], image_type: ImageType) -> (res: Option<Image>)
        ensures
            res is Some <==> Image::parsable(data@, image_type),
            res matches Some(img) ==> img.decodes(data@, image_type) && img.wf(),
    {
        match image_type {
            ImageType::Bmp => match Bmp::parse(data) {
                Some(bmp) => Some(Image { raw: ImageData::Bmp(bmp) }),
                None => None,
            },
            ImageType::Png => match Png::parse(data) {
                Some(png) => Some(Image { raw: ImageData::Png(png) }),
                None => None,
            },
            ImageType::Ppm => match Ppm::parse(data) {
                Some(ppm) => Some(Image { raw: ImageData::Ppm(ppm) }),
                None => None,
            },
        }
    }

    /// Applies a filter to the image.
    pub fn apply_filter<F: ImageFilter>(&mut self, filter: F)
        requires
            old(self).wf(),
        ensures
            final(self).wf(),
            final(self).grid().width == old(self).grid().width,
            final(self).grid().height == old(self).grid().height,
            filter.specified() ==> final(self).grid() == filter.result(
                old(self).grid(),
                old(self).ceiling(),
            ),
            final(self).ceiling() == old(self).ceiling(),
            final(self).size() == old(self).size(),
            final(self).signature() == old(self).signature(),
            final(self).metadata() == old(self).metadata(),
    {
        filter.apply(self);
    }
}

impl ImageFormat for Image {
    open spec fn wf(&self) -> bool {
        match self.raw {
            ImageData::Bmp(bmp) => bmp.wf(),
            ImageData::Png(png) => png.wf(),
            ImageData::Ppm(ppm) => ppm.wf(),
        }
    }

    open spec fn grid(&self) -> Grid {
        match self.raw {
            ImageData::Bmp(bmp) => bmp.grid(),
            ImageData::Png(png) => png.grid(),
            ImageData::Ppm(ppm) => ppm.grid(),
        }
    }

    open spec fn ceiling(&self) -> u8 {
        match self.raw {
            ImageData::Bmp(bmp) => bmp.ceiling(),
            ImageData::Png(png) => png.ceiling(),
            ImageData::Ppm(ppm) => ppm.ceiling(),
        }
    }

    open spec fn size(&self) -> u32 {
        match self.raw {
            ImageData::Bmp(bmp) => bmp.size(),
            ImageData::Png(png) => png.size(),
            ImageData::Ppm(ppm) => ppm.size(),
        }
    }

    open spec fn signature(&self) -> Seq<char> {
        match self.raw {
            ImageData::Bmp(bmp) => bmp.signature(),
            ImageData::Png(png) => png.signature(),
            ImageData::Ppm(ppm) => ppm.signature(),
        }
    }

    open spec fn metadata(&self) -> Seq<char> {
        match self.raw {
            ImageData::Bmp(bmp) => bmp.metadata(),
            ImageData::Png(png) => png.metadata(),
            ImageData::Ppm(ppm) => ppm.metadata(),
        }
    }

    open spec fn encoding(&self) -> Seq<u8> {
        match self.raw {
            ImageData::Bmp(bmp) => bmp.encoding(),
            ImageData::Png(png) => png.encoding(),
            ImageData::Ppm(ppm) => ppm.encoding(),
        }
    }

    proof fn grid_wf(&self) {
        match self.raw {
            ImageData::Bmp(bmp) => bmp.grid_wf(),
            ImageData::Png(png) => png.grid_wf(),
            ImageData::Ppm(ppm) => ppm.grid_wf(),
        }
    }

    fn get_pixel(&self, x: usize, y: usize) -> (res: Option<&Pixel>) {
        match &self.raw {
            ImageData::Bmp(bmp) => bmp.get_pixel(x, y),
            ImageData::Png(png) => png.get_pixel(x, y),
            ImageData::Ppm(ppm) => ppm.get_pixel(x, y),
        }
    }

    fn set_pixel(&mut self, x: usize, y: usize, pixel: Pixel) -> (res: Option<()>) {
        match &mut self.raw {
            ImageData::Bmp(bmp) => bmp.set_pixel(x, y, pixel),
            ImageData::Png(png) => png.set_pixel(x, y, pixel),
            ImageData::Ppm(ppm) => ppm.set_pixel(x, y, pixel),
        }
    }

    fn get_size(&self) -> (res: u32) {
        match &self.raw {
            ImageData::Bmp(bmp) => bmp.get_size(),
            ImageData::Png(png) => png.get_size(),
            ImageData::Ppm(ppm) => ppm.get_size(),
        }
    }

    fn get_signature(&self) -> (res: String) {
        match &self.raw {
            ImageData::Bmp(bmp) => bmp.get_signature(),
            ImageData::Png(png) => png.get_signature(),
            ImageData::Ppm(ppm) => ppm.get_signature(),
        }
    }

    fn get_metadata(&self) -> (res: String) {
        match &self.raw {
            ImageData::Bmp(bmp) => bmp.get_metadata(),
            ImageData::Png(png) => png.get_metadata(),
            ImageData::Ppm(ppm) => ppm.get_metadata(),
        }
    }

    fn get_height(&self) -> (res: usize) {
        match &self.raw {
            ImageData::Bmp(bmp) => bmp.get_height(),
            ImageData::Png(png) => png.get_height(),
            ImageData::Ppm(ppm) => ppm.get_height(),
        }
    }

    fn get_width(&self) -> (res: usize) {
        match &self.raw {
            ImageData::Bmp(bmp) => bmp.get_width(),
            ImageData::Png(png) => png.get_width(),
            ImageData::Ppm(ppm) => ppm.get_width(),
        }
    }

    fn to_bytes(&self) -> (res: Vec<u8>) {
        match &self.raw {
            ImageData::Bmp(bmp) => bmp.to_bytes(),
            ImageData::Png(png) => png.to_bytes(),
            ImageData::Ppm(ppm) => ppm.to_bytes(),
        }
    }
}

} // verus!
