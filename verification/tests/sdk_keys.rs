use zerolaunch::sdk::{set_plugin_id, t_key, PluginIdSlot};

#[test]
fn t_key_prefixes_current_plugin_id() {
    let mut slot = PluginIdSlot::new();
    set_plugin_id(&mut slot, "com.example.hello-world");
    assert_eq!(t_key(&slot, "greeting"), "plugin.com.example.hello-world.greeting");
    assert_eq!(t_key(&slot, "sayHello"), "plugin.com.example.hello-world.sayHello");
}

#[test]
fn plugin_id_is_set_once() {
    let mut slot = PluginIdSlot::new();
    assert!(!slot.is_set());
    set_plugin_id(&mut slot, "com.example.first");
    set_plugin_id(&mut slot, "com.example.second");
    assert!(slot.is_set());
    assert_eq!(t_key(&slot, "k"), "plugin.com.example.first.k");
}
