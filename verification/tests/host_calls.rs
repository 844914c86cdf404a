use zerolaunch::host_api::{
    icon_request, locale_request, log_request, notify_request, resource_bytes, resource_delete_request,
    resource_get_request, resource_list_request, resource_put_request, resource_upload_request, text_answer,
    theme_answer, theme_request, HostRequest,
};
use zerolaunch::protocol::jsonrpc::JsonValue;

fn members(r: &HostRequest) -> Vec<(String, String)> {
    match &r.params {
        JsonValue::Object(m) => m
            .iter()
            .map(|(k, v)| {
                let text = match v {
                    JsonValue::String(s) => s.clone(),
                    JsonValue::Number(n) => format!("#{n}"),
                    JsonValue::Null => "null".to_string(),
                    _ => "other".to_string(),
                };
                (k.clone(), text)
            })
            .collect(),
        _ => panic!("params must be an object"),
    }
}

#[test]
fn requests_carry_method_and_parameters() {
    let r = log_request("warn", "hi");
    assert_eq!(r.method, "host/log");
    assert_eq!(members(&r), vec![("level".into(), "warn".into()), ("message".into(), "hi".into())]);
    let n = notify_request("t", "m");
    assert_eq!(n.method, "host/notify");
    assert_eq!(members(&n), vec![("title".into(), "t".into()), ("message".into(), "m".into())]);
    let l = locale_request();
    assert_eq!(l.method, "host/i18n.get_locale");
    assert!(matches!(l.params, JsonValue::Null));
    assert_eq!(theme_request().method, "host/theme.get");
    let icon = icon_request("/a.exe");
    assert_eq!(icon.method, "host/icon.get");
    match &icon.params {
        JsonValue::Object(m) => {
            assert_eq!(m[0].0, "request");
            assert!(matches!(&m[0].1, JsonValue::Object(inner) if inner.len() == 1 && inner[0].0 == "path"));
            assert!(matches!(&m[1].1, JsonValue::String(s) if s == "Full"));
        }
        _ => panic!("icon params must be an object"),
    }
    let up = resource_upload_request("r1", "/tmp/f", Some(1024));
    assert_eq!(
        members(&up),
        vec![
            ("resourceId".into(), "r1".into()),
            ("filePath".into(), "/tmp/f".into()),
            ("maxSize".into(), "#1024".into())
        ]
    );
    assert_eq!(members(&resource_upload_request("r1", "/tmp/f", None))[2].1, "null");
    assert_eq!(resource_get_request("r1").method, "host/resource.get");
    assert_eq!(resource_delete_request("r1").method, "host/resource.delete");
    assert!(matches!(resource_list_request().params, JsonValue::Object(ref m) if m.is_empty()));
}

#[test]
fn answers_are_read_as_documented() {
    assert_eq!(text_answer(&JsonValue::String("zh-Hans".to_string())), "zh-Hans");
    assert_eq!(text_answer(&JsonValue::Null), "");
    assert_eq!(theme_answer(&JsonValue::String("dark".to_string())), Ok("dark".to_string()));
    assert_eq!(
        theme_answer(&JsonValue::Bool(true)),
        Err("host theme response is not a string".to_string())
    );
}

#[test]
fn resource_bytes_round_trip_through_base64() {
    let data = b"\x00\x01binary\xff".to_vec();
    let put = resource_put_request("r1", &data);
    assert_eq!(put.method, "host/resource.put");
    let sent = members(&put)[1].1.clone();
    assert_eq!(sent, "AAFiaW5hcnn/");
    assert_eq!(resource_bytes(&JsonValue::String(sent)), Ok(data));
    assert!(resource_bytes(&JsonValue::String("@@@".to_string())).unwrap_err().starts_with("base64 decode failed: "));
    assert_eq!(resource_bytes(&JsonValue::Null), Ok(vec![]));
}
