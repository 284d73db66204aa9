use embedded_svc::channel::{adapt, dummy, merge, send, send_both, EitherError, Sender};
use embedded_svc::wifi::{AccessPointConfiguration, AuthMethod, ClientConfiguration, Configuration, PmfConfiguration};

#[test]
fn mixed_conf_keeps_client_part_and_adds_default_ap() {
    let mut client = ClientConfiguration::default();
    client.ssid = "home".to_string();
    let mut conf = Configuration::Client(client.clone());
    {
        let (c, a) = conf.as_mixed_conf_mut();
        assert_eq!(c.ssid, "home");
        assert_eq!(a.ssid, AccessPointConfiguration::default().ssid);
        a.channel = 6;
    }
    match &conf {
        Configuration::Mixed(c, a) => {
            assert_eq!(c.ssid, "home");
            assert_eq!(a.channel, 6);
        }
        _ => panic!("mixed mode expected"),
    }
    assert_eq!(conf.as_client_conf_ref().map(|c| c.ssid.clone()), Some("home".to_string()));
}

#[test]
fn client_conf_mut_switches_to_client_mode() {
    let mut conf = Configuration::AccessPoint(AccessPointConfiguration::default());
    conf.as_client_conf_mut().password = "secret".to_string();
    assert!(matches!(&conf, Configuration::Client(c) if c.password == "secret"));
    assert!(conf.as_ap_conf_ref().is_none());
}

#[test]
fn wifi_defaults() {
    let ap = AccessPointConfiguration::default();
    assert_eq!(ap.ssid, "iot-device");
    assert_eq!(AuthMethod::default(), AuthMethod::WPA2Personal);
}

struct Log(Vec<i32>, bool);

impl Sender for Log {
    type Data = i32;
    type Error = &'static str;

    fn never_fails(&self) -> bool {
        !self.1
    }

    fn send(&mut self, value: i32) -> Result<(), &'static str> {
        if self.1 {
            return Err("closed");
        }
        self.0.push(value);
        Ok(())
    }
}

#[test]
fn adapted_send_drops_filtered_values() {
    let mut log = Log(Vec::new(), false);
    let even = |v: i32| if v % 2 == 0 { Some(v / 2) } else { None };
    assert!(send(&mut log, 4, &even).is_ok());
    assert!(send(&mut log, 3, &even).is_ok());
    assert_eq!(log.0, vec![2]);
    let mut adapted = adapt(Log(Vec::new(), false), even);
    assert!(adapted.send_adapted(8).is_ok());
}

#[test]
fn send_both_stops_at_first_failure() {
    let mut a = Log(Vec::new(), false);
    let mut b = Log(Vec::new(), false);
    assert!(send_both(&mut a, &mut b, 1).is_ok());
    assert_eq!((a.0.clone(), b.0.clone()), (vec![1], vec![1]));
    let mut broken = Log(Vec::new(), true);
    assert!(matches!(send_both(&mut broken, &mut b, 2), Err(EitherError::First("closed"))));
    assert_eq!(b.0, vec![1]);
    assert!(matches!(send_both(&mut a, &mut broken, 3), Err(EitherError::Second("closed"))));
    let mut merged = merge(Log(Vec::new(), false), Log(Vec::new(), false));
    assert!(merged.send_merged(5).is_ok());
    let mut d = dummy::<i32>();
    assert!(d.send(1).is_ok());
}

#[test]
fn pmf_constructors_follow_their_names() {
    assert_eq!(PmfConfiguration::new_required(), PmfConfiguration::Capable { required: true });
    assert_eq!(PmfConfiguration::new_pmf_optional(), PmfConfiguration::Capable { required: false });
    assert_eq!(PmfConfiguration::default(), PmfConfiguration::NotCapable);
}

#[test]
fn configuration_room_and_protocol_order() {
    let ap = AccessPointConfiguration::default();
    assert!(Configuration::AccessPoint(ap.clone()).is_wf());
    let mut reordered = ap.clone();
    reordered.protocols.reverse();
    assert!(!reordered.is_wf());
    let mut client = ClientConfiguration::default();
    client.ssid = "x".repeat(33);
    assert!(!Configuration::Mixed(client, ap).is_wf());
}
