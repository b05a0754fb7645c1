//! The registry: every postprocessor by the name it is asked for.

use crate::compress::{Base64, Gzip, Lz4, Snappy, Xz2, Zlib, Zstd};
use crate::config::{flag_setting, str_eq, text_setting, ConfigEntry, PostprocessorConfig};
use crate::error::{not_found, Error};
use crate::gelf::{Gelf, GelfView, DEFAULT_CHUNK_SIZE, DEFAULT_MAX_CHUNKS};
use crate::join::{newline, Join, JoinView};
use crate::postprocessor::{silent, Call, Outcome, Postprocessor};
use crate::prefix::{AttachIngresTs, LengthPrefix, TextualLength};
use vstd::prelude::*;

verus! {

/// Any postprocessor of the registry.
pub enum Stage {
    /// Joins records with a separator.
    Join(Join),
    /// Encodes as base64 text.
    Base64(Base64),
    /// Compresses into a GZIP member.
    Gzip(Gzip),
    /// Compresses into a ZLIB stream.
    Zlib(Zlib),
    /// Compresses into an `.xz` stream.
    Xz2(Xz2),
    /// Compresses into a Snappy frame stream.
    Snappy(Snappy),
    /// Compresses into an LZ4 frame.
    Lz4(Lz4),
    /// Prepends the ingest timestamp.
    AttachIngresTs(AttachIngresTs),
    /// Prepends the length in eight bytes.
    LengthPrefix(LengthPrefix),
    /// Splits large messages into chunks.
    Gelf(Gelf),
    /// Prepends the length as decimal text.
    TextualLength(TextualLength),
    /// Compresses into a Zstandard frame.
    Zstd(Zstd),
}

/// A chain of postprocessors, in the order in which they are applied.
pub type Postprocessors = Vec<Stage>;

/// Whether a postprocessor is registered under `name`.
pub open spec fn registered(name: Seq<char>) -> bool {
    ||| name == "join"@
    ||| name == "lines"@
    ||| name == "base64"@
    ||| name == "gzip"@
    ||| name == "zlib"@
    ||| name == "xz2"@
    ||| name == "snappy"@
    ||| name == "lz4"@
    ||| name == "ingest-ns"@
    ||| name == "length-prefixed"@
    ||| name == "gelf-chunking"@
    ||| name == "textual-length-prefix"@
    ||| name == "zstd"@
}

/// The separator that a `join` is made with: the text set as `separator`,
/// or a newline.
pub open spec fn join_separator(settings: Seq<ConfigEntry>) -> Seq<u8> {
    match text_setting(settings, "separator"@) {
        Some(bytes) => bytes,
        None => newline(),
    }
}

/// The mode that a `join` is made with: the switch set as `buffered`, or
/// off.
pub open spec fn join_buffered(settings: Seq<ConfigEntry>) -> bool {
    match flag_setting(settings, "buffered"@) {
        Some(on) => on,
        None => false,
    }
}

/// Whether `stage` is the postprocessor registered under `name`, made with
/// `settings`, as it is before its first call.
pub open spec fn built(name: Seq<char>, settings: Seq<ConfigEntry>, stage: Stage) -> bool {
    if name == "join"@ {
        stage matches Stage::Join(join) && join@ == (JoinView {
            separator: join_separator(settings),
            buffered: join_buffered(settings),
            pending: Seq::empty(),
        })
    } else if name == "lines"@ {
        stage matches Stage::Join(join) && join@ == (JoinView {
            separator: newline(),
            buffered: false,
            pending: Seq::empty(),
        })
    } else if name == "base64"@ {
        stage is Base64
    } else if name == "gzip"@ {
        stage is Gzip
    } else if name == "zlib"@ {
        stage is Zlib
    } else if name == "xz2"@ {
        stage is Xz2
    } else if name == "snappy"@ {
        stage is Snappy
    } else if name == "lz4"@ {
        stage is Lz4
    } else if name == "ingest-ns"@ {
        stage is AttachIngresTs
    } else if name == "length-prefixed"@ {
        stage is LengthPrefix
    } else if name == "gelf-chunking"@ {
        stage matches Stage::Gelf(gelf) && gelf@ == (GelfView {
            id: 0,
            chunk_size: DEFAULT_CHUNK_SIZE as nat,
            max_chunks: DEFAULT_MAX_CHUNKS as nat,
        })
    } else if name == "textual-length-prefix"@ {
        stage is TextualLength
    } else if name == "zstd"@ {
        stage is Zstd
    } else {
        false
    }
}

/// Whether the request at `at` is the first of `configs` that names no
/// postprocessor.
pub open spec fn first_unknown(configs: Seq<PostprocessorConfig>, at: int) -> bool {
    &&& 0 <= at < configs.len()
    &&& !registered(configs[at].name@)
    &&& forall|i: int| 0 <= i < at ==> registered(#[trigger] configs[i].name@)
}

impl Stage {
    /// Whether the postprocessor holds no bytes back from one call to the
    /// next.
    pub open spec fn holds_nothing(&self) -> bool {
        !(self is Join)
    }
}

impl Postprocessor for Stage {
    open spec fn spec_name(&self) -> Seq<char> {
        match self {
            Stage::Join(stage) => stage.spec_name(),
            Stage::Base64(stage) => stage.spec_name(),
            Stage::Gzip(stage) => stage.spec_name(),
            Stage::Zlib(stage) => stage.spec_name(),
            Stage::Xz2(stage) => stage.spec_name(),
            Stage::Snappy(stage) => stage.spec_name(),
            Stage::Lz4(stage) => stage.spec_name(),
            Stage::AttachIngresTs(stage) => stage.spec_name(),
            Stage::LengthPrefix(stage) => stage.spec_name(),
            Stage::Gelf(stage) => stage.spec_name(),
            Stage::TextualLength(stage) => stage.spec_name(),
            Stage::Zstd(stage) => stage.spec_name(),
        }
    }

    open spec fn yields(&self, call: Call, outcome: Outcome, next: Self) -> bool {
        match (*self, next) {
            (Stage::Join(stage), Stage::Join(after)) => stage.yields(call, outcome, after),
            (Stage::Base64(stage), Stage::Base64(after)) => stage.yields(call, outcome, after),
            (Stage::Gzip(stage), Stage::Gzip(after)) => stage.yields(call, outcome, after),
            (Stage::Zlib(stage), Stage::Zlib(after)) => stage.yields(call, outcome, after),
            (Stage::Xz2(stage), Stage::Xz2(after)) => stage.yields(call, outcome, after),
            (Stage::Snappy(stage), Stage::Snappy(after)) => stage.yields(call, outcome, after),
            (Stage::Lz4(stage), Stage::Lz4(after)) => stage.yields(call, outcome, after),
            (Stage::AttachIngresTs(stage), Stage::AttachIngresTs(after)) => stage.yields(call, outcome, after),
            (Stage::LengthPrefix(stage), Stage::LengthPrefix(after)) => stage.yields(call, outcome, after),
            (Stage::Gelf(stage), Stage::Gelf(after)) => stage.yields(call, outcome, after),
            (Stage::TextualLength(stage), Stage::TextualLength(after)) => stage.yields(call, outcome, after),
            (Stage::Zstd(stage), Stage::Zstd(after)) => stage.yields(call, outcome, after),
            _ => false,
        }
    }

    fn name(&self) -> (r: &str) {
        match self {
            Stage::Join(stage) => stage.name(),
            Stage::Base64(stage) => stage.name(),
            Stage::Gzip(stage) => stage.name(),
            Stage::Zlib(stage) => stage.name(),
            Stage::Xz2(stage) => stage.name(),
            Stage::Snappy(stage) => stage.name(),
            Stage::Lz4(stage) => stage.name(),
            Stage::AttachIngresTs(stage) => stage.name(),
            Stage::LengthPrefix(stage) => stage.name(),
            Stage::Gelf(stage) => stage.name(),
            Stage::TextualLength(stage) => stage.name(),
            Stage::Zstd(stage) => stage.name(),
        }
    }

    fn process(&mut self, ingres_ns: u64, egress_ns: u64, data: &[u8]) -> (r: Result<
        Vec<Vec<u8>>,
        Error,
    >) {
        match self {
            Stage::Join(stage) => stage.process(ingres_ns, egress_ns, data),
            Stage::Base64(stage) => stage.process(ingres_ns, egress_ns, data),
            Stage::Gzip(stage) => stage.process(ingres_ns, egress_ns, data),
            Stage::Zlib(stage) => stage.process(ingres_ns, egress_ns, data),
            Stage::Xz2(stage) => stage.process(ingres_ns, egress_ns, data),
            Stage::Snappy(stage) => stage.process(ingres_ns, egress_ns, data),
            Stage::Lz4(stage) => stage.process(ingres_ns, egress_ns, data),
            Stage::AttachIngresTs(stage) => stage.process(ingres_ns, egress_ns, data),
            Stage::LengthPrefix(stage) => stage.process(ingres_ns, egress_ns, data),
            Stage::Gelf(stage) => stage.process(ingres_ns, egress_ns, data),
            Stage::TextualLength(stage) => stage.process(ingres_ns, egress_ns, data),
            Stage::Zstd(stage) => stage.process(ingres_ns, egress_ns, data),
        }
    }

    fn finish(&mut self, data: Option<&[u8]>) -> (r: Result<Vec<Vec<u8>>, Error>) {
        match self {
            Stage::Join(stage) => stage.finish(data),
            Stage::Base64(stage) => stage.finish(data),
            Stage::Gzip(stage) => stage.finish(data),
            Stage::Zlib(stage) => stage.finish(data),
            Stage::Xz2(stage) => stage.finish(data),
            Stage::Snappy(stage) => stage.finish(data),
            Stage::Lz4(stage) => stage.finish(data),
            Stage::AttachIngresTs(stage) => stage.finish(data),
            Stage::LengthPrefix(stage) => stage.finish(data),
            Stage::Gelf(stage) => stage.finish(data),
            Stage::TextualLength(stage) => stage.finish(data),
            Stage::Zstd(stage) => stage.finish(data),
        }
    }
}

/// A postprocessor of the registry stays the postprocessor it is: whatever it
/// answers to a call, it goes by the same name afterwards.
pub proof fn lemma_stage_keeps_its_name(stage: Stage, call: Call, outcome: Outcome, next: Stage)
    requires
        stage.yields(call, outcome, next),
    ensures
        next.spec_name() == stage.spec_name(),
{
}

/// Finishing a postprocessor that holds nothing back yields no frame, with
/// or without a frame flushed by the stage before it, and leaves it the
/// postprocessor of the same kind.
pub proof fn lemma_finish_yields_nothing(
    stage: Stage,
    flushed: Option<Seq<u8>>,
    outcome: Outcome,
    next: Stage,
)
    requires
        stage.holds_nothing(),
        stage.yields(Call::Finish { flushed }, outcome, next),
    ensures
        outcome == silent(),
        next.spec_name() == stage.spec_name(),
{
}

/// Looks a postprocessor up by the name in `config` and makes it with the
/// settings in `config`. An unknown name is the one way to fail.
pub fn lookup_with_config(config: &PostprocessorConfig) -> (r: Result<Stage, Error>)
    ensures
        r is Ok <==> registered(config.name@),
        match r {
            Ok(stage) => built(config.name@, config.config@, stage),
            Err(e) => {
                &&& e matches Error::UnknownPostprocessor { name }
                &&& name@ == config.name@
                &&& e.text() == not_found(config.name@)
            },
        },
{
    let name = config.name.as_str();
    if str_eq(name, "join") {
        let separator = match config.text("separator") {
            Some(bytes) => bytes,
            None => {
                let mut bytes: Vec<u8> = Vec::new();
                bytes.push(10);
                assert(bytes@ =~= newline());
                bytes
            },
        };
        let buffered = match config.flag("buffered") {
            Some(on) => on,
            None => false,
        };
        Ok(Stage::Join(Join::new(separator, buffered)))
    } else if str_eq(name, "lines") {
        Ok(Stage::Join(Join::default()))
    } else if str_eq(name, "base64") {
        Ok(Stage::Base64(Base64 {}))
    } else if str_eq(name, "gzip") {
        Ok(Stage::Gzip(Gzip {}))
    } else if str_eq(name, "zlib") {
        Ok(Stage::Zlib(Zlib {}))
    } else if str_eq(name, "xz2") {
        Ok(Stage::Xz2(Xz2 {}))
    } else if str_eq(name, "snappy") {
        Ok(Stage::Snappy(Snappy {}))
    } else if str_eq(name, "lz4") {
        Ok(Stage::Lz4(Lz4 {}))
    } else if str_eq(name, "ingest-ns") {
        Ok(Stage::AttachIngresTs(AttachIngresTs {}))
    } else if str_eq(name, "length-prefixed") {
        Ok(Stage::LengthPrefix(LengthPrefix {}))
    } else if str_eq(name, "gelf-chunking") {
        Ok(Stage::Gelf(Gelf::default()))
    } else if str_eq(name, "textual-length-prefix") {
        Ok(Stage::TextualLength(TextualLength {}))
    } else if str_eq(name, "zstd") {
        Ok(Stage::Zstd(Zstd {}))
    } else {
        Err(Error::UnknownPostprocessor { name: name.to_owned() })
    }
}

/// Looks a postprocessor up by its name alone and makes it with no settings.
pub fn lookup(name: &str) -> (r: Result<Stage, Error>)
    ensures
        r is Ok <==> registered(name@),
        match r {
            Ok(stage) => built(name@, Seq::empty(), stage),
            Err(e) => {
                &&& e matches Error::UnknownPostprocessor { name: unknown }
                &&& unknown@ == name@
                &&& e.text() == not_found(name@)
            },
        },
{
    let config = PostprocessorConfig::from_name(name);
    assert(config.config@ =~= Seq::<ConfigEntry>::empty());
    lookup_with_config(&config)
}

/// Makes the chain that `postprocessors` asks for, stage by stage in the
/// same order. Fails on the first name that is unknown, and then makes
/// nothing.
pub fn make_postprocessors(postprocessors: &[PostprocessorConfig]) -> (r: Result<
    Postprocessors,
    Error,
>)
    ensures
        r is Ok <==> forall|i: int|
            0 <= i < postprocessors@.len() ==> registered(#[trigger] postprocessors@[i].name@),
        match r {
            Ok(chain) => {
                &&& chain@.len() == postprocessors@.len()
                &&& forall|i: int|
                    0 <= i < chain@.len() ==> built(
                        postprocessors@[i].name@,
                        postprocessors@[i].config@,
                        #[trigger] chain@[i],
                    )
            },
            Err(e) => {
                &&& e matches Error::UnknownPostprocessor { name }
                &&& exists|at: int| #[trigger]
                    first_unknown(postprocessors@, at) && name@ == postprocessors@[at].name@
                        && e.text() == not_found(postprocessors@[at].name@)
            },
        },
{
    let mut chain: Vec<Stage> = Vec::new();
    let mut i: usize = 0;
    while i < postprocessors.len()
        invariant
            i <= postprocessors@.len(),
            chain@.len() == i,
            forall|j: int| 0 <= j < i ==> registered(#[trigger] postprocessors@[j].name@),
            forall|j: int|
                0 <= j < i ==> built(
                    postprocessors@[j].name@,
                    postprocessors@[j].config@,
                    #[trigger] chain@[j],
                ),
        decreases postprocessors@.len() - i,
    {
        match lookup_with_config(&postprocessors[i]) {
            Ok(stage) => {
                chain.push(stage);
            },
            Err(e) => {
                assert(first_unknown(postprocessors@, i as int));
                return Err(e);
            },
        }
        i = i + 1;
    }
    Ok(chain)
}

} // verus!
