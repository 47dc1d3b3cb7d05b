//! Maps file-type ids to the handlers that carve them.
use vstd::prelude::*;
use vstd::string::*;

use crate::carve::bmp::BmpCarveHandler;
use crate::carve::footer::FooterCarveHandler;
use crate::carve::mp3::Mp3CarveHandler;
use crate::carve::ole::OleCarveHandler;
use crate::carve::rar::RarCarveHandler;
use crate::carve::riff::{RiffCarveHandler, AVI_FORM, WAVE_FORM, WEBP_FORM};
use crate::carve::sevenz::SevenZipCarveHandler;
use crate::carve::sqlite::SqliteCarveHandler;
use crate::carve::zip::ZipCarveHandler;
use crate::carve::{describes, Carved, CarveError, ExtractionContext};
use crate::config::FileTypeConfig;
use crate::error::FastCarveError;
use crate::scanner::NormalizedHit;

verus! {

/// One handler of each supported kind.
pub enum CarveHandler {
    Bmp(BmpCarveHandler),
    Ole(OleCarveHandler),
    Riff(RiffCarveHandler),
    Footer(FooterCarveHandler),
    Sqlite(SqliteCarveHandler),
    SevenZip(SevenZipCarveHandler),
    Zip(ZipCarveHandler),
    Mp3(Mp3CarveHandler),
    Rar(RarCarveHandler),
}

impl CarveHandler {
    /// The file type the handler writes into its records.
    pub open spec fn spec_file_type(&self) -> Seq<char> {
        match self {
            CarveHandler::Bmp(h) => "bmp"@,
            CarveHandler::Ole(h) => "ole"@,
            CarveHandler::Riff(h) => h.spec_file_type(),
            CarveHandler::Footer(h) => h.spec_file_type(),
            CarveHandler::Sqlite(h) => "sqlite"@,
            CarveHandler::SevenZip(h) => "7z"@,
            CarveHandler::Zip(h) => "zip"@,
            CarveHandler::Mp3(h) => "mp3"@,
            CarveHandler::Rar(h) => "rar"@,
        }
    }

    pub open spec fn spec_extension(&self) -> Seq<char> {
        match self {
            CarveHandler::Bmp(h) => h.spec_extension(),
            CarveHandler::Ole(h) => h.spec_extension(),
            CarveHandler::Riff(h) => h.spec_extension(),
            CarveHandler::Footer(h) => h.spec_extension(),
            CarveHandler::Sqlite(h) => h.spec_extension(),
            CarveHandler::SevenZip(h) => h.spec_extension(),
            CarveHandler::Zip(h) => h.spec_extension(),
            CarveHandler::Mp3(h) => h.spec_extension(),
            CarveHandler::Rar(h) => h.spec_extension(),
        }
    }

    /// What the handler's `process_hit` returns: the contract of the
    /// format's own handler.
    pub open spec fn outcome(
        &self,
        hit: &NormalizedHit,
        ctx: &ExtractionContext,
        r: Result<Option<Carved>, CarveError>,
    ) -> bool {
        match self {
            CarveHandler::Bmp(h) => h.outcome(hit, ctx, r),
            CarveHandler::Ole(h) => h.outcome(hit, ctx, r),
            CarveHandler::Riff(h) => h.outcome(hit, ctx, r),
            CarveHandler::Footer(h) => h.outcome(hit, ctx, r),
            CarveHandler::Sqlite(h) => h.outcome(hit, ctx, r),
            CarveHandler::SevenZip(h) => h.outcome(hit, ctx, r),
            CarveHandler::Zip(h) => h.outcome(hit, ctx, r),
            CarveHandler::Mp3(h) => h.outcome(hit, ctx, r),
            CarveHandler::Rar(h) => h.outcome(hit, ctx, r),
        }
    }

    pub fn file_type(&self) -> (r: &str)
        ensures
            r@ == self.spec_file_type(),
    {
        match self {
            CarveHandler::Bmp(h) => h.file_type(),
            CarveHandler::Ole(h) => h.file_type(),
            CarveHandler::Riff(h) => h.file_type(),
            CarveHandler::Footer(h) => h.file_type(),
            CarveHandler::Sqlite(h) => h.file_type(),
            CarveHandler::SevenZip(h) => h.file_type(),
            CarveHandler::Zip(h) => h.file_type(),
            CarveHandler::Mp3(h) => h.file_type(),
            CarveHandler::Rar(h) => h.file_type(),
        }
    }

    pub fn extension(&self) -> (r: &str)
        ensures
            r@ == self.spec_extension(),
    {
        match self {
            CarveHandler::Bmp(h) => h.extension(),
            CarveHandler::Ole(h) => h.extension(),
            CarveHandler::Riff(h) => h.extension(),
            CarveHandler::Footer(h) => h.extension(),
            CarveHandler::Sqlite(h) => h.extension(),
            CarveHandler::SevenZip(h) => h.extension(),
            CarveHandler::Zip(h) => h.extension(),
            CarveHandler::Mp3(h) => h.extension(),
            CarveHandler::Rar(h) => h.extension(),
        }
    }

    /// Runs the handler on a hit. Whatever the format, a carved file is
    /// faithful to the evidence and starts at the hit.
    pub fn process_hit(&self, hit: &NormalizedHit, ctx: &ExtractionContext) -> (r: Result<
        Option<Carved>,
        CarveError,
    >)
        ensures
            self.outcome(hit, ctx, r),
            r is Ok,
            r->Ok_0 matches Some(c) ==> describes(c, ctx.evidence.bytes())
                && c.record.global_start == hit.global_offset && c.record.pattern_id == Some(
                hit.pattern_id,
            ),
    {
        match self {
            CarveHandler::Bmp(h) => h.process_hit(hit, ctx),
            CarveHandler::Ole(h) => h.process_hit(hit, ctx),
            CarveHandler::Riff(h) => h.process_hit(hit, ctx),
            CarveHandler::Footer(h) => h.process_hit(hit, ctx),
            CarveHandler::Sqlite(h) => h.process_hit(hit, ctx),
            CarveHandler::SevenZip(h) => h.process_hit(hit, ctx),
            CarveHandler::Zip(h) => h.process_hit(hit, ctx),
            CarveHandler::Mp3(h) => h.process_hit(hit, ctx),
            CarveHandler::Rar(h) => h.process_hit(hit, ctx),
        }
    }
}

/// Names of the handler implementations a configuration may select.
pub open spec fn known_validator(v: Seq<char>) -> bool {
    v == "bmp"@ || v == "ole"@ || v == "wav"@ || v == "avi"@ || v == "webp"@ || v == "jpeg"@
        || v == "png"@ || v == "gif"@ || v == "sqlite"@ || v == "7z"@
        || v == "zip"@ || v == "mp3"@ || v == "rar"@
}

fn is_named(s: &String, name: &str) -> (r: bool)
    ensures
        r == (s@ == name@),
{
    *s == String::from_str(name)
}

/// The handler's size limits are the configuration's.
pub open spec fn limits(cfg: FileTypeConfig, min_size: u64, max_size: u64, extension: Seq<char>) -> bool {
    min_size == cfg.min_size && max_size == cfg.max_size && extension == cfg.extension@
}

/// `h` is the handler that `cfg`'s validator selects, with its settings.
pub open spec fn builds(cfg: FileTypeConfig, h: CarveHandler) -> bool {
    let v = cfg.validator@;
    match h {
        CarveHandler::Bmp(x) => v == "bmp"@ && limits(cfg, x.spec_min_size(), x.spec_max_size(), x.spec_extension()),
        CarveHandler::Ole(x) => v == "ole"@ && limits(cfg, x.spec_min_size(), x.spec_max_size(), x.spec_extension()),
        CarveHandler::Riff(x) => limits(cfg, x.spec_min_size(), x.spec_max_size(), x.spec_extension())
            && x.spec_file_type() == cfg.id@ && ((v == "wav"@ && x.spec_form() == WAVE_FORM@) || (
        v == "avi"@ && x.spec_form() == AVI_FORM@) || (v == "webp"@ && x.spec_form() == WEBP_FORM@)),
        CarveHandler::Footer(x) => limits(cfg, x.spec_min_size(), x.spec_max_size(), x.spec_extension())
            && ((v == "jpeg"@ && x.spec_file_type() == "jpeg"@) || (v == "png"@ && x.spec_file_type()
            == "png"@) || (v == "gif"@ && x.spec_file_type() == "gif"@)),
        CarveHandler::Sqlite(x) => v == "sqlite"@ && limits(cfg, x.spec_min_size(), x.spec_max_size(), x.spec_extension()),
        CarveHandler::SevenZip(x) => v == "7z"@ && limits(cfg, x.spec_min_size(), x.spec_max_size(), x.spec_extension()),
        CarveHandler::Zip(x) => v == "zip"@ && limits(cfg, x.spec_min_size(), x.spec_max_size(), x.spec_extension()),
        CarveHandler::Mp3(x) => v == "mp3"@ && limits(cfg, x.spec_min_size(), x.spec_max_size(), x.spec_extension()),
        CarveHandler::Rar(x) => v == "rar"@ && limits(cfg, x.spec_min_size(), x.spec_max_size(), x.spec_extension()),
    }
}

/// Instantiates the handler that a file-type configuration selects.
pub fn handler_for(cfg: &FileTypeConfig) -> (r: Result<CarveHandler, FastCarveError>)
    ensures
        r is Ok <==> known_validator(cfg.validator@),
        r matches Err(e) ==> e is Config,
        r matches Ok(h) ==> builds(*cfg, h),
{
    let v = &cfg.validator;
    let ext = cfg.extension.clone();
    if is_named(v, "bmp") {
        Ok(CarveHandler::Bmp(BmpCarveHandler::new(ext, cfg.min_size, cfg.max_size)))
    } else if is_named(v, "ole") {
        Ok(CarveHandler::Ole(OleCarveHandler::new(ext, cfg.min_size, cfg.max_size)))
    } else if is_named(v, "wav") {
        Ok(CarveHandler::Riff(RiffCarveHandler::new(cfg.id.clone(), WAVE_FORM, ext, cfg.min_size, cfg.max_size)))
    } else if is_named(v, "avi") {
        Ok(CarveHandler::Riff(RiffCarveHandler::new(cfg.id.clone(), AVI_FORM, ext, cfg.min_size, cfg.max_size)))
    } else if is_named(v, "webp") {
        Ok(CarveHandler::Riff(RiffCarveHandler::new(cfg.id.clone(), WEBP_FORM, ext, cfg.min_size, cfg.max_size)))
    } else if is_named(v, "jpeg") {
        Ok(CarveHandler::Footer(FooterCarveHandler::jpeg(ext, cfg.min_size, cfg.max_size)))
    } else if is_named(v, "png") {
        Ok(CarveHandler::Footer(FooterCarveHandler::png(ext, cfg.min_size, cfg.max_size)))
    } else if is_named(v, "gif") {
        Ok(CarveHandler::Footer(FooterCarveHandler::gif(ext, cfg.min_size, cfg.max_size)))
    } else if is_named(v, "sqlite") {
        Ok(CarveHandler::Sqlite(SqliteCarveHandler::new(ext, cfg.min_size, cfg.max_size)))
    } else if is_named(v, "7z") {
        Ok(CarveHandler::SevenZip(SevenZipCarveHandler::new(ext, cfg.min_size, cfg.max_size)))
    } else if is_named(v, "zip") {
        Ok(CarveHandler::Zip(ZipCarveHandler::new(ext, cfg.min_size, cfg.max_size)))
    } else if is_named(v, "mp3") {
        Ok(CarveHandler::Mp3(Mp3CarveHandler::new(ext, cfg.min_size, cfg.max_size)))
    } else if is_named(v, "rar") {
        Ok(CarveHandler::Rar(RarCarveHandler::new(ext, cfg.min_size, cfg.max_size)))
    } else {
        Err(FastCarveError::Config(String::from_str("unknown validator: ").concat(v.as_str())))
    }
}

/// File-type id to handler; read-only once built.
pub struct CarveRegistry {
    entries: Vec<(String, CarveHandler)>,
}

impl CarveRegistry {
    /// The registered ids, in registration order.
    pub closed spec fn ids(&self) -> Seq<Seq<char>> {
        self.entries@.map_values(|e: (String, CarveHandler)| e.0@)
    }

    /// The handler registered at position `i`.
    pub closed spec fn handler_at(&self, i: int) -> CarveHandler {
        self.entries@[i].1
    }

    /// Position `i` is the first registration of `id`.
    pub open spec fn first_index(&self, id: Seq<char>, i: int) -> bool {
        &&& 0 <= i < self.ids().len()
        &&& self.ids()[i] == id
        &&& forall|j: int| 0 <= j < i ==> self.ids()[j] != id
    }

    pub fn new() -> (r: Self)
        ensures
            r.ids() == Seq::<Seq<char>>::empty(),
    {
        let r = CarveRegistry { entries: Vec::new() };
        assert(r.ids() =~= Seq::<Seq<char>>::empty());
        r
    }

    pub fn len(&self) -> (r: usize)
        ensures
            r == self.ids().len(),
    {
        self.entries.len()
    }

    pub fn register(&mut self, id: String, handler: CarveHandler)
        ensures
            final(self).ids() == old(self).ids().push(id@),
            final(self).handler_at(old(self).ids().len() as int) == handler,
            forall|i: int|
                0 <= i < old(self).ids().len() ==> final(self).handler_at(i) == old(self).handler_at(i),
    {
        let ghost id_view = id@;
        self.entries.push((id, handler));
        assert(self.ids() =~= old(self).ids().push(id_view));
    }

    /// The first handler registered under `id`, if any.
    pub fn get(&self, id: &String) -> (r: Option<&CarveHandler>)
        ensures
            r is None <==> !self.ids().contains(id@),
            r matches Some(h) ==> exists|i: int| self.first_index(id@, i) && *h == self.handler_at(i),
    {
        let mut i: usize = 0;
        while i < self.entries.len()
            invariant
                i <= self.entries@.len(),
                forall|j: int| 0 <= j < i ==> self.ids()[j] != id@,
            decreases self.entries.len() - i,
        {
            if self.entries[i].0 == *id {
                assert(self.ids()[i as int] == id@);
                assert(self.first_index(id@, i as int));
                assert(self.entries[i as int].1 == self.handler_at(i as int));
                return Some(&self.entries[i].1);
            }
            i = i + 1;
        }
        proof {
            if self.ids().contains(id@) {
                let j = choose|j: int| 0 <= j < self.ids().len() && self.ids()[j] == id@;
                assert(self.ids()[j] != id@);
            }
        }
        None
    }
}

/// Builds the registry for the configured file types, one handler per type
/// in configuration order. Fails when a type names an unknown validator.
pub fn build_carve_registry(configs: &Vec<FileTypeConfig>) -> (r: Result<CarveRegistry, FastCarveError>)
    ensures
        r is Ok <==> forall|i: int| 0 <= i < configs@.len() ==> #[trigger] known_validator(configs@[i].validator@),
        r matches Ok(reg) ==> reg.ids() == configs@.map_values(|c: FileTypeConfig| c.id@),
        r matches Ok(reg) ==> forall|i: int|
            0 <= i < configs@.len() ==> #[trigger] builds(configs@[i], reg.handler_at(i)),
{
    let mut reg = CarveRegistry::new();
    let mut i: usize = 0;
    while i < configs.len()
        invariant
            i <= configs@.len(),
            forall|j: int| 0 <= j < i ==> #[trigger] known_validator(configs@[j].validator@),
            reg.ids() == configs@.subrange(0, i as int).map_values(|c: FileTypeConfig| c.id@),
            forall|j: int| 0 <= j < i ==> #[trigger] builds(configs@[j], reg.handler_at(j)),
        decreases configs.len() - i,
    {
        let cfg = &configs[i];
        match handler_for(cfg) {
            Err(e) => {
                return Err(e);
            },
            Ok(h) => {
                reg.register(cfg.id.clone(), h);
                assert(configs@.subrange(0, i + 1).map_values(|c: FileTypeConfig| c.id@)
                    =~= configs@.subrange(0, i as int).map_values(|c: FileTypeConfig| c.id@).push(cfg.id@));
            },
        }
        i = i + 1;
    }
    assert(configs@.subrange(0, i as int) =~= configs@);
    Ok(reg)
}

} // verus!
