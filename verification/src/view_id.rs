//! The ids of the tabs, widgets and popups of the dashboard.

#![allow(non_upper_case_globals)]

use vstd::prelude::*;

verus! {

pub const tab_pods: &'static str = "tab_pods";

pub const tab_pods_widget_pods: &'static str = "tab_pods_widget_pods";

pub const tab_pods_widget_logs: &'static str = "tab_pods_widget_logs";

pub const tab_configs: &'static str = "tab_configs";

pub const tab_configs_widget_configs: &'static str = "tab_configs_widget_configs";

pub const tab_configs_widget_raw_data: &'static str = "tab_configs_widget_raw_data";

pub const tab_event: &'static str = "tab_event";

pub const tab_event_widget_event: &'static str = "tab_event_widget_event";

pub const tab_apis: &'static str = "tab_apis";

pub const tab_apis_widget_apis: &'static str = "tab_apis_widget_apis";

pub const subwin_ns: &'static str = "subwin_ns";

pub const subwin_apis: &'static str = "subwin_apis";

pub const subwin_single_ns: &'static str = "subwin_single_ns";

} // verus!
