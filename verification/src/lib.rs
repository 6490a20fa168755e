//! A structural copy engine for a tagged-value heap, together with a
//! flattening traversal for lazily concatenated sequences.

mod concat;
mod copy;
mod info;
mod laws;
mod store;
mod value;

pub use concat::CollectVisitor;
pub use concat::ConcatenationVisitor;
pub use concat::iterate_concatentation;
pub use concat::leaf_seq;
pub use copy::CustomHandler;
pub use copy::NumberHandler;
pub use copy::UnitHandler;
pub use copy::associations_of;
pub use copy::clone_data;
pub use copy::clone_data_with_custom_handler;
pub use copy::clone_data_with_handlers;
pub use copy::copies_to;
pub use copy::copy_allocates;
pub use copy::copy_result_post;
pub use copy::copy_size;
pub use copy::copy_size_items;
pub use copy::is_association;
pub use copy::list_items_copied;
pub use copy::operands_copied;
pub use copy::shared_addr;
pub use info::DataInfoProvider;
pub use laws::composite_parts;
pub use laws::lemma_association_rederivation;
pub use laws::lemma_associations_complete;
pub use laws::lemma_associations_sound;
pub use laws::lemma_composite_address_ordering;
pub use laws::lemma_custom_degradation;
pub use laws::lemma_leaf_round_trip;
pub use laws::lemma_list_isomorphism;
pub use laws::lemma_no_aliasing;
pub use laws::scalar_kind;
pub use store::Data;
pub use store::StoreView;
pub use store::heap_wf;
pub use store::same_builders;
pub use store::value_wf;
pub use value::DataError;
pub use value::Kind;
pub use value::Value;
pub use value::kind_of;
