//! The bundled model catalog: its entries, and where a model's default file
//! is downloaded from.

use vstd::prelude::*;
use crate::text::concat;

verus! {

/// The catalog document.
#[derive(Debug, Clone)]
pub struct Catalog {
    pub catalog_version: u32,
    pub generated_at: String,
    pub models: Vec<CatalogModel>,
}

/// One model entry.
#[derive(Debug, Clone)]
pub struct CatalogModel {
    /// Full Hugging Face repository id.
    pub id: String,
    /// Short slug.
    pub slug: String,
    pub name: String,
    pub architecture: String,
    pub family: String,
    pub description: String,
    pub language_count: u32,
    pub languages: Vec<String>,
    pub capabilities: CatalogCapabilities,
    /// 0 to 100, higher is faster.
    pub speed_score: u32,
    /// 0 to 100, higher is more accurate.
    pub accuracy_score: u32,
    pub files: Vec<CatalogFile>,
    /// The quantization downloaded by default.
    pub default_quant: String,
    pub recommended: bool,
    /// Overall recommendation order, 1 first; `None` when not ranked.
    pub recommended_rank: Option<u32>,
}

/// Declared model capabilities.
#[derive(Debug, Clone)]
pub struct CatalogCapabilities {
    pub streaming: bool,
    pub translate: bool,
    pub lang_detect: bool,
    pub timestamps: String,
}

impl Default for CatalogCapabilities {
    /// No capability, and no timestamp kind.
    fn default() -> (r: Self)
        ensures
            !r.streaming && !r.translate && !r.lang_detect && r.timestamps@.len() == 0,
    {
        CatalogCapabilities {
            streaming: false,
            translate: false,
            lang_detect: false,
            timestamps: String::new(),
        }
    }
}

/// One downloadable quantization of a model.
#[derive(Debug, Clone)]
pub struct CatalogFile {
    pub filename: String,
    pub quant: String,
    pub size_bytes: u64,
}

/// The start of every download address.
pub const HUGGING_FACE: &'static str = "https://huggingface.co/";

/// Between the repository and the file name.
pub const RESOLVE_MAIN: &'static str = "/resolve/main/";

impl CatalogModel {
    /// The index of the default file: the first file of the default
    /// quantization, else the first file; `None` without files.
    pub open spec fn default_file_spec(&self) -> Option<int> {
        if exists|i: int| 0 <= i < self.files@.len() && self.files@[i].quant@ == self.default_quant@ {
            Some(
                choose|i: int|
                    0 <= i < self.files@.len() && self.files@[i].quant@ == self.default_quant@
                        && forall|j: int|
                        0 <= j < i ==> self.files@[j].quant@ != self.default_quant@,
            )
        } else if self.files@.len() > 0 {
            Some(0)
        } else {
            None
        }
    }

    /// The file entry for the model's default quantization, falling back to
    /// the first file when the default is not listed.
    pub fn default_file(&self) -> (r: Option<&CatalogFile>)
        ensures
            match self.default_file_spec() {
                Some(i) => r matches Some(f) && f == self.files@[i],
                None => r is None,
            },
    {
        let mut i: usize = 0;
        while i < self.files.len()
            invariant
                i <= self.files@.len(),
                forall|j: int| 0 <= j < i ==> self.files@[j].quant@ != self.default_quant@,
            decreases self.files.len() - i,
        {
            if self.files[i].quant == self.default_quant {
                proof {
                    let c = choose|c: int|
                        0 <= c < self.files@.len() && self.files@[c].quant@ == self.default_quant@
                            && forall|j: int|
                            0 <= j < c ==> self.files@[j].quant@ != self.default_quant@;
                    if c < i {
                        assert(self.files@[c].quant@ != self.default_quant@);
                    } else if c > i {
                        assert(self.files@[i as int].quant@ != self.default_quant@);
                    }
                }
                return Some(&self.files[i]);
            }
            i += 1;
        }
        if self.files.len() > 0 {
            Some(&self.files[0])
        } else {
            None
        }
    }

    /// The direct download address of one of the model's files:
    /// `https://huggingface.co/<id>/resolve/main/<filename>`.
    pub fn download_url(&self, file: &CatalogFile) -> (r: String)
        ensures
            r@ == HUGGING_FACE@ + self.id@ + RESOLVE_MAIN@ + file.filename@,
    {
        let a = concat(HUGGING_FACE, self.id.as_str());
        let b = concat(a.as_str(), RESOLVE_MAIN);
        concat(b.as_str(), file.filename.as_str())
    }
}

} // verus!
