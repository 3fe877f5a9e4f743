use vstd::prelude::*;

verus! {

/// The stream the console sink writes to.
#[derive(Clone, Copy, Debug, PartialEq, Eq, Structural)]
pub enum Target {
    /// Standard output.
    Stdout,
    /// Standard error.
    Stderr,
}

impl Default for Target {
    fn default() -> (r: Target)
        ensures
            r == Target::Stdout,
    {
        Target::Stdout
    }
}

/// How each event is serialized.
#[derive(Clone, Copy, Debug, PartialEq, Eq, Structural)]
pub enum Codec {
    Json,
    Text,
}

/// How serialized events are delimited in the stream.
#[derive(Clone, Copy, Debug, PartialEq, Eq, Structural)]
pub enum Framing {
    NewlineDelimited,
    Bytes,
}

/// The encoding of the sink: a codec, and a framing where one is chosen.
#[derive(Clone, Copy, Debug, PartialEq, Eq, Structural)]
pub struct EncodingConfig {
    pub framing: Option<Framing>,
    pub codec: Codec,
}

/// Whether the sink acknowledges delivery; `None` leaves it to the pipeline.
#[derive(Clone, Copy, Debug, PartialEq, Eq, Structural)]
pub struct AcknowledgementsConfig {
    pub enabled: Option<bool>,
}

impl Default for AcknowledgementsConfig {
    fn default() -> (r: AcknowledgementsConfig)
        ensures
            r.enabled is None,
    {
        AcknowledgementsConfig { enabled: None }
    }
}

/// Configuration of the console sink.
#[derive(Clone, Copy, Debug, PartialEq, Eq, Structural)]
pub struct ConsoleSinkConfig {
    pub target: Target,
    pub encoding: EncodingConfig,
    pub acknowledgements: AcknowledgementsConfig,
}

impl ConsoleSinkConfig {
    /// The example configuration: standard output, JSON with no framing
    /// chosen, and acknowledgements left to the pipeline.
    pub fn generate_config() -> (r: ConsoleSinkConfig)
        ensures
            r.target == Target::Stdout,
            r.encoding.framing is None,
            r.encoding.codec == Codec::Json,
            r.acknowledgements.enabled is None,
    {
        ConsoleSinkConfig {
            target: Target::Stdout,
            encoding: EncodingConfig { framing: None, codec: Codec::Json },
            acknowledgements: AcknowledgementsConfig::default(),
        }
    }

    pub fn acknowledgements(&self) -> (r: &AcknowledgementsConfig)
        ensures
            *r == self.acknowledgements,
    {
        &self.acknowledgements
    }
}

} // verus!
