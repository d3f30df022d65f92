//! Reading and driving the host's IP configuration through the reports and
//! commands of the system's network tools.
//!
//! The library works on the text that the tools print and on the argument
//! lists that they are started with; running the tools is left to the
//! caller, which hands each report in as text and runs each `CommandLine`.
pub mod address;
pub mod commands;
pub mod platform;
pub mod query;
pub mod table;

pub use address::find_ip_address;
pub use commands::{
    add_default_ipv4_route, add_default_ipv6_route, add_default_route, add_interface_ipv4_address,
    add_interface_ipv6_address, delete_default_ipv4_route, delete_default_ipv6_route,
    delete_default_route, CommandLine,
};
pub use platform::{
    add_default_ipv4_rule, add_default_ipv6_rule, delete_default_ipv4_rule,
    delete_default_ipv6_rule, get_default_ipv4_address, get_default_ipv6_address,
    get_ipv4_forwarding, get_ipv6_forwarding, set_ipv4_forwarding, set_ipv6_forwarding,
};
pub use query::{
    default_route_entry, get_default_interface, get_default_ipv4_gateway,
    get_default_ipv4_interface_index, get_default_ipv4_route_entry, get_default_ipv6_gateway,
    get_default_ipv6_route_entry, get_interface_entry, get_interface_index, get_interface_indices,
    Family, NetError,
};
pub use table::{get_interface_entries, get_ip_route_entries, parse_table, HEADER_LINES};
