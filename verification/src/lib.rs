//! A toroidal Conway's Game of Life simulation engine: a grid of cells that
//! evolves under the classic rule, with corpse-heat fade tracking, bounded
//! rewind history, snapshot persistence and a cancellable evolution driver.

mod cell;
mod credits;
mod driver;
mod rng;
mod stack;
mod snapshot;
mod universe;

pub use cell::UniverseCell;
pub use cell::UniverseGridMode;
pub use cell::UniversePoint;
pub use credits::translators_list;
pub use driver::EvolutionDriver;
pub use driver::MAX_EVOLUTION_SPEED;
pub use driver::MIN_EVOLUTION_SPEED;
pub use stack::WindowedStack;
pub use stack::DEFAULT_WINDOW_SIZE;
pub use stack::lemma_push_eviction;
pub use stack::windowed_push;
pub use stack::windowed_push_all;
pub use snapshot::SnapshotError;
pub use snapshot::UniverseSnapshot;
pub use snapshot::lemma_serialize_round_trip;
pub use snapshot::spec_byte_cell;
pub use snapshot::spec_cell_byte;
pub use snapshot::spec_valid_encoding;
pub use universe::Universe;
pub use universe::DEFAULT_ALIVE_PERCENT;
pub use universe::DEFAULT_FREEZE_RATE;
pub use universe::INITIAL_CORPSE_HEAT;
pub use universe::alive_count_of;
pub use universe::lemma_alive_dead_partition;
pub use universe::lemma_index_bijective;
pub use universe::lemma_index_bound;
pub use universe::lemma_index_split;
pub use universe::lemma_neighbors_wrap_toroidally;
pub use universe::lemma_no_spontaneous_life;
pub use universe::lemma_tick_delta_exact;
pub use universe::lemma_wrap_dec;
pub use universe::lemma_wrap_inc;
pub use universe::points_prefix;
pub use universe::wrap_dec;
pub use universe::wrap_inc;
