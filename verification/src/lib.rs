//! Game rules of a multiplayer farming world: plots staked in four tiers,
//! a plot exchange, a crop order book, tribes and alliances, and a
//! multiplicative yield engine.
//!
//! Every instruction is a verified transition from account state and
//! arguments to new account state, the token movements it asks for and
//! the event it reports; a refused instruction changes nothing.
pub mod arith;
pub mod book_laws;
pub mod errors;
pub mod exchange;
pub mod game_laws;
pub mod insert_laws;
pub mod instructions;
pub mod market;
pub mod pubkey;
pub mod social;
pub mod state;
pub mod yield_engine;
pub mod yield_laws;

pub use errors::ErrorCode;
pub use exchange::{accept_plot_offer, list_plot, PlotTraded, TradeSettlement};
pub use instructions::{
    abandon_plot, claim_plot, harvest, upgrade_plot, AbandonSettlement, Harvested, PlotAbandoned,
    PlotClaimed,
};
pub use market::{match_book, place_order, OrderFilled, PlaceOrderArgs, Placement};
pub use pubkey::Pubkey;
pub use social::{create_alliance, create_tribe, join_alliance, join_tribe};
pub use state::{
    upgrade_bps, upgrade_cost, Alliance, AllianceMember, ItemType, OfferStatus, Order,
    OrderStatus, Player, Plot, PlotOffer, PlotTier, Side, Tribe, TribeMember, World,
};
pub use yield_engine::{compute_yield, is_golden_hour};
