pub mod cache;
pub mod callbacks;
pub mod engine;
pub mod errors;
pub mod faststart;
pub mod http;
pub mod meta;
pub mod mp4;
pub mod ranges;
pub mod resample;
pub mod ring;
pub mod rss;
pub mod smart;
pub mod state;
pub mod window;

pub use cache::CacheEntry;
pub use callbacks::CallbackEvent;
pub use callbacks::CallbackManager;
pub use callbacks::ThrottledCallback;
pub use cache::RangeCache;
pub use cache::copy_range;
pub use engine::DecodeStep;
pub use engine::LoadPlan;
pub use engine::PodiumPlayer;
pub use engine::Session;
pub use engine::PlaybackEngine;
pub use engine::SourceKind;
pub use engine::mono_to_stereo;
pub use errors::AudioError;
pub use faststart::MappedOffset;
pub use faststart::build_virtual_layout;
pub use faststart::VirtualFastStartSource;
pub use http::HttpRangeSource;
pub use http::SeekFrom;
pub use http::fetch_end;
pub use http::parse_total_from_content_range;
pub use http::parse_u64_ascii;
pub use faststart::VirtualLayout;
pub use meta::AudioMetadata;
pub use meta::AudioTags;
pub use meta::Chapter;
pub use meta::CoverArt;
pub use meta::FormatInfo;
pub use meta::QualityParams;
pub use meta::json_option_string;
pub use meta::u64_to_string;
pub use mp4::Atom;
pub use mp4::find_atom;
pub use mp4::has_moov_at_start;
pub use mp4::parse_atom_header;
pub use ranges::M4AStreamingState;
pub use resample::AudioFormat;
pub use resample::AudioSpec;
pub use resample::Resampler;
pub use resample::TrackInfo;
pub use resample::effective_output_rate;
pub use resample::needs_resampling;
pub use ring::AudioRingBuffer;
pub use rss::PodcastFeed;
pub use rss::RssEpisode;
pub use rss::generate_id;
pub use rss::u64_to_hex_string;
pub use smart::ProbeDecision;
pub use smart::SourceChoice;
pub use smart::choose_m4a_source;
pub use smart::is_m4a_format;
pub use smart::next_download_chunk;
pub use smart::prebuffer_target;
pub use smart::retry_backoff_ms;
pub use smart::probe_step;
pub use state::PlaybackStatus;
pub use state::PlayerState;
pub use state::PlayerStateContainer;
pub use state::transition_allowed;
pub use window::HttpStreamState;

