//! The messages of MAVLink's common dialect: how long they are, and what the dialect
//! makes of a payload.

use crate::wire::kept;
use mavio::dialects::common::Common;
use mavio::protocol::{Dialect, MavLinkVersion, Payload};
use vstd::prelude::*;

verus! {

/// Whether the dialect reads a message out of a payload, the one with the number `id`.
pub uninterp spec fn in_dialect(id: u32, v2: bool, bytes: Seq<u8>) -> bool;

/// `Common::decode` on `Payload::new`: whether the number is that of a message of the
/// dialect, and the payload holds that message. In MAVLink 2 it panics on payloads that
/// are longer than their message, so those are left out.
#[verifier::external_body]
pub(crate) fn dialect_reads(id: u32, payload: &[u8], v2: bool) -> (r: bool)
    requires
        v2 ==> within(id, payload@),
    ensures
        r == in_dialect(id, v2, payload@),
{
    let version = [MavLinkVersion::V1, MavLinkVersion::V2][v2 as usize];
    Common::decode(&Payload::new(id, payload, version)).is_ok()
}

/// The byte that the dialect has for the layout of a message; `None` where it has no
/// message with that number.
pub uninterp spec fn crc_extra(id: u32) -> Option<u8>;

/// `Common::message_info`, and `MessageSpec::crc_extra` of what it finds: the byte that
/// stands for the layout of a message, which checksums cover. It is computed from the
/// definition of the message and depends on the number alone.
#[verifier::external_body]
pub(crate) fn dialect_crc_extra(id: u32) -> (r: Option<u8>)
    ensures
        r == crc_extra(id),
{
    Common::message_info(id).ok().map(|info| info.crc_extra())
}

/// Some bytes are no longer than the message with a number, but for zeros at their end.
pub open spec fn within(id: u32, bytes: Seq<u8>) -> bool {
    message_size(id) matches Some(size) ==> kept(bytes) <= size
}

/// The most bytes that a message has, with its extensions; `None` where the dialect has
/// no message with that number.
#[verifier::opaque]
pub open spec fn message_size(id: u32) -> Option<nat> {
    match id {
        0 => Some(9),  // HEARTBEAT
        1 => Some(43),  // SYS_STATUS
        2 => Some(12),  // SYSTEM_TIME
        4 => Some(14),  // PING
        5 => Some(28),  // CHANGE_OPERATOR_CONTROL
        6 => Some(3),  // CHANGE_OPERATOR_CONTROL_ACK
        7 => Some(32),  // AUTH_KEY
        8 => Some(36),  // LINK_NODE_STATUS
        11 => Some(6),  // SET_MODE
        20 => Some(20),  // PARAM_REQUEST_READ
        21 => Some(2),  // PARAM_REQUEST_LIST
        22 => Some(25),  // PARAM_VALUE
        23 => Some(23),  // PARAM_SET
        24 => Some(52),  // GPS_RAW_INT
        25 => Some(101),  // GPS_STATUS
        26 => Some(24),  // SCALED_IMU
        27 => Some(29),  // RAW_IMU
        28 => Some(16),  // RAW_PRESSURE
        29 => Some(16),  // SCALED_PRESSURE
        30 => Some(28),  // ATTITUDE
        31 => Some(48),  // ATTITUDE_QUATERNION
        32 => Some(28),  // LOCAL_POSITION_NED
        33 => Some(28),  // GLOBAL_POSITION_INT
        34 => Some(22),  // RC_CHANNELS_SCALED
        35 => Some(22),  // RC_CHANNELS_RAW
        36 => Some(37),  // SERVO_OUTPUT_RAW
        37 => Some(7),  // MISSION_REQUEST_PARTIAL_LIST
        38 => Some(7),  // MISSION_WRITE_PARTIAL_LIST
        39 => Some(38),  // MISSION_ITEM
        40 => Some(5),  // MISSION_REQUEST
        41 => Some(4),  // MISSION_SET_CURRENT
        42 => Some(18),  // MISSION_CURRENT
        43 => Some(3),  // MISSION_REQUEST_LIST
        44 => Some(9),  // MISSION_COUNT
        45 => Some(3),  // MISSION_CLEAR_ALL
        46 => Some(2),  // MISSION_ITEM_REACHED
        47 => Some(8),  // MISSION_ACK
        48 => Some(21),  // SET_GPS_GLOBAL_ORIGIN
        49 => Some(20),  // GPS_GLOBAL_ORIGIN
        50 => Some(37),  // PARAM_MAP_RC
        51 => Some(5),  // MISSION_REQUEST_INT
        54 => Some(27),  // SAFETY_SET_ALLOWED_AREA
        55 => Some(25),  // SAFETY_ALLOWED_AREA
        61 => Some(72),  // ATTITUDE_QUATERNION_COV
        62 => Some(26),  // NAV_CONTROLLER_OUTPUT
        63 => Some(181),  // GLOBAL_POSITION_INT_COV
        64 => Some(225),  // LOCAL_POSITION_NED_COV
        65 => Some(42),  // RC_CHANNELS
        66 => Some(6),  // REQUEST_DATA_STREAM
        67 => Some(4),  // DATA_STREAM
        69 => Some(30),  // MANUAL_CONTROL
        70 => Some(38),  // RC_CHANNELS_OVERRIDE
        73 => Some(38),  // MISSION_ITEM_INT
        74 => Some(20),  // VFR_HUD
        75 => Some(35),  // COMMAND_INT
        76 => Some(33),  // COMMAND_LONG
        77 => Some(10),  // COMMAND_ACK
        80 => Some(4),  // COMMAND_CANCEL
        81 => Some(22),  // MANUAL_SETPOINT
        82 => Some(51),  // SET_ATTITUDE_TARGET
        83 => Some(37),  // ATTITUDE_TARGET
        84 => Some(53),  // SET_POSITION_TARGET_LOCAL_NED
        85 => Some(51),  // POSITION_TARGET_LOCAL_NED
        86 => Some(53),  // SET_POSITION_TARGET_GLOBAL_INT
        87 => Some(51),  // POSITION_TARGET_GLOBAL_INT
        89 => Some(28),  // LOCAL_POSITION_NED_SYSTEM_GLOBAL_OFFSET
        90 => Some(56),  // HIL_STATE
        91 => Some(42),  // HIL_CONTROLS
        92 => Some(33),  // HIL_RC_INPUTS_RAW
        93 => Some(81),  // HIL_ACTUATOR_CONTROLS
        100 => Some(34),  // OPTICAL_FLOW
        101 => Some(117),  // GLOBAL_VISION_POSITION_ESTIMATE
        102 => Some(117),  // VISION_POSITION_ESTIMATE
        103 => Some(57),  // VISION_SPEED_ESTIMATE
        104 => Some(116),  // VICON_POSITION_ESTIMATE
        105 => Some(63),  // HIGHRES_IMU
        106 => Some(44),  // OPTICAL_FLOW_RAD
        107 => Some(65),  // HIL_SENSOR
        108 => Some(92),  // SIM_STATE
        109 => Some(9),  // RADIO_STATUS
        110 => Some(254),  // FILE_TRANSFER_PROTOCOL
        111 => Some(18),  // TIMESYNC
        112 => Some(12),  // CAMERA_TRIGGER
        113 => Some(39),  // HIL_GPS
        114 => Some(44),  // HIL_OPTICAL_FLOW
        115 => Some(64),  // HIL_STATE_QUATERNION
        116 => Some(24),  // SCALED_IMU2
        117 => Some(6),  // LOG_REQUEST_LIST
        118 => Some(14),  // LOG_ENTRY
        119 => Some(12),  // LOG_REQUEST_DATA
        120 => Some(97),  // LOG_DATA
        121 => Some(2),  // LOG_ERASE
        122 => Some(2),  // LOG_REQUEST_END
        123 => Some(113),  // GPS_INJECT_DATA
        124 => Some(57),  // GPS2_RAW
        125 => Some(6),  // POWER_STATUS
        126 => Some(81),  // SERIAL_CONTROL
        127 => Some(35),  // GPS_RTK
        128 => Some(35),  // GPS2_RTK
        129 => Some(24),  // SCALED_IMU3
        130 => Some(13),  // DATA_TRANSMISSION_HANDSHAKE
        131 => Some(255),  // ENCAPSULATED_DATA
        132 => Some(39),  // DISTANCE_SENSOR
        133 => Some(18),  // TERRAIN_REQUEST
        134 => Some(43),  // TERRAIN_DATA
        135 => Some(8),  // TERRAIN_CHECK
        136 => Some(22),  // TERRAIN_REPORT
        137 => Some(16),  // SCALED_PRESSURE2
        138 => Some(120),  // ATT_POS_MOCAP
        139 => Some(43),  // SET_ACTUATOR_CONTROL_TARGET
        140 => Some(41),  // ACTUATOR_CONTROL_TARGET
        141 => Some(32),  // ALTITUDE
        142 => Some(243),  // RESOURCE_REQUEST
        143 => Some(16),  // SCALED_PRESSURE3
        144 => Some(93),  // FOLLOW_TARGET
        146 => Some(100),  // CONTROL_SYSTEM_STATE
        147 => Some(54),  // BATTERY_STATUS
        148 => Some(78),  // AUTOPILOT_VERSION
        149 => Some(60),  // LANDING_TARGET
        162 => Some(9),  // FENCE_STATUS
        192 => Some(54),  // MAG_CAL_REPORT
        225 => Some(73),  // EFI_STATUS
        230 => Some(42),  // ESTIMATOR_STATUS
        231 => Some(40),  // WIND_COV
        232 => Some(65),  // GPS_INPUT
        233 => Some(182),  // GPS_RTCM_DATA
        234 => Some(40),  // HIGH_LATENCY
        235 => Some(42),  // HIGH_LATENCY2
        241 => Some(32),  // VIBRATION
        242 => Some(60),  // HOME_POSITION
        243 => Some(61),  // SET_HOME_POSITION
        244 => Some(6),  // MESSAGE_INTERVAL
        245 => Some(2),  // EXTENDED_SYS_STATE
        246 => Some(38),  // ADSB_VEHICLE
        247 => Some(19),  // COLLISION
        248 => Some(254),  // V2_EXTENSION
        249 => Some(36),  // MEMORY_VECT
        250 => Some(30),  // DEBUG_VECT
        251 => Some(18),  // NAMED_VALUE_FLOAT
        252 => Some(18),  // NAMED_VALUE_INT
        253 => Some(54),  // STATUSTEXT
        254 => Some(9),  // DEBUG
        256 => Some(42),  // SETUP_SIGNING
        257 => Some(9),  // BUTTON_CHANGE
        258 => Some(232),  // PLAY_TUNE
        259 => Some(237),  // CAMERA_INFORMATION
        260 => Some(14),  // CAMERA_SETTINGS
        261 => Some(61),  // STORAGE_INFORMATION
        262 => Some(23),  // CAMERA_CAPTURE_STATUS
        263 => Some(255),  // CAMERA_IMAGE_CAPTURED
        264 => Some(32),  // FLIGHT_INFORMATION
        265 => Some(20),  // MOUNT_ORIENTATION
        266 => Some(255),  // LOGGING_DATA
        267 => Some(255),  // LOGGING_DATA_ACKED
        268 => Some(4),  // LOGGING_ACK
        269 => Some(215),  // VIDEO_STREAM_INFORMATION
        270 => Some(20),  // VIDEO_STREAM_STATUS
        271 => Some(53),  // CAMERA_FOV_STATUS
        275 => Some(32),  // CAMERA_TRACKING_IMAGE_STATUS
        276 => Some(50),  // CAMERA_TRACKING_GEO_STATUS
        277 => Some(30),  // CAMERA_THERMAL_RANGE
        280 => Some(33),  // GIMBAL_MANAGER_INFORMATION
        281 => Some(13),  // GIMBAL_MANAGER_STATUS
        282 => Some(35),  // GIMBAL_MANAGER_SET_ATTITUDE
        283 => Some(145),  // GIMBAL_DEVICE_INFORMATION
        284 => Some(32),  // GIMBAL_DEVICE_SET_ATTITUDE
        285 => Some(49),  // GIMBAL_DEVICE_ATTITUDE_STATUS
        286 => Some(57),  // AUTOPILOT_STATE_FOR_GIMBAL_DEVICE
        287 => Some(23),  // GIMBAL_MANAGER_SET_PITCHYAW
        288 => Some(23),  // GIMBAL_MANAGER_SET_MANUAL_CONTROL
        290 => Some(46),  // ESC_INFO
        291 => Some(57),  // ESC_STATUS
        299 => Some(98),  // WIFI_CONFIG_AP
        300 => Some(22),  // PROTOCOL_VERSION
        301 => Some(58),  // AIS_VESSEL
        310 => Some(17),  // UAVCAN_NODE_STATUS
        311 => Some(116),  // UAVCAN_NODE_INFO
        320 => Some(20),  // PARAM_EXT_REQUEST_READ
        321 => Some(2),  // PARAM_EXT_REQUEST_LIST
        322 => Some(149),  // PARAM_EXT_VALUE
        323 => Some(147),  // PARAM_EXT_SET
        324 => Some(146),  // PARAM_EXT_ACK
        330 => Some(167),  // OBSTACLE_DISTANCE
        331 => Some(233),  // ODOMETRY
        332 => Some(239),  // TRAJECTORY_REPRESENTATION_WAYPOINTS
        333 => Some(109),  // TRAJECTORY_REPRESENTATION_BEZIER
        334 => Some(10),  // CELLULAR_STATUS
        335 => Some(24),  // ISBD_LINK_STATUS
        336 => Some(84),  // CELLULAR_CONFIG
        339 => Some(5),  // RAW_RPM
        340 => Some(70),  // UTM_GLOBAL_POSITION
        350 => Some(252),  // DEBUG_FLOAT_ARRAY
        360 => Some(25),  // ORBIT_EXECUTION_STATUS
        370 => Some(109),  // SMART_BATTERY_INFO
        371 => Some(26),  // FUEL_STATUS
        372 => Some(140),  // BATTERY_INFO
        373 => Some(42),  // GENERATOR_STATUS
        375 => Some(140),  // ACTUATOR_OUTPUT_STATUS
        380 => Some(20),  // TIME_ESTIMATE_TO_TARGET
        385 => Some(133),  // TUNNEL
        386 => Some(16),  // CAN_FRAME
        387 => Some(72),  // CANFD_FRAME
        388 => Some(37),  // CAN_FILTER_MODIFY
        390 => Some(238),  // ONBOARD_COMPUTER_STATUS
        395 => Some(212),  // COMPONENT_INFORMATION
        396 => Some(160),  // COMPONENT_INFORMATION_BASIC
        397 => Some(108),  // COMPONENT_METADATA
        400 => Some(254),  // PLAY_TUNE_V2
        401 => Some(6),  // SUPPORTED_TUNES
        410 => Some(53),  // EVENT
        411 => Some(3),  // CURRENT_EVENT_SEQUENCE
        412 => Some(6),  // REQUEST_EVENT
        413 => Some(7),  // RESPONSE_EVENT_ERROR
        440 => Some(35),  // ILLUMINATOR_STATUS
        9000 => Some(137),  // WHEEL_DISTANCE
        9005 => Some(34),  // WINCH_STATUS
        12900 => Some(44),  // OPEN_DRONE_ID_BASIC_ID
        12901 => Some(59),  // OPEN_DRONE_ID_LOCATION
        12902 => Some(53),  // OPEN_DRONE_ID_AUTHENTICATION
        12903 => Some(46),  // OPEN_DRONE_ID_SELF_ID
        12904 => Some(54),  // OPEN_DRONE_ID_SYSTEM
        12905 => Some(43),  // OPEN_DRONE_ID_OPERATOR_ID
        12915 => Some(249),  // OPEN_DRONE_ID_MESSAGE_PACK
        12918 => Some(51),  // OPEN_DRONE_ID_ARM_STATUS
        12919 => Some(18),  // OPEN_DRONE_ID_SYSTEM_UPDATE
        12920 => Some(5),  // HYGROMETER_SENSOR
        _ => None,
    }
}

/// The most bytes that a message has, with its extensions.
pub fn largest_payload(id: u32) -> (r: Option<usize>)
    ensures
        match r {
            Some(size) => message_size(id) == Some(size as nat),
            None => message_size(id) is None,
        },
{
    proof {
        reveal(message_size);
    }
    match id {
        0 => Some(9),
        1 => Some(43),
        2 => Some(12),
        4 => Some(14),
        5 => Some(28),
        6 => Some(3),
        7 => Some(32),
        8 => Some(36),
        11 => Some(6),
        20 => Some(20),
        21 => Some(2),
        22 => Some(25),
        23 => Some(23),
        24 => Some(52),
        25 => Some(101),
        26 => Some(24),
        27 => Some(29),
        28 => Some(16),
        29 => Some(16),
        30 => Some(28),
        31 => Some(48),
        32 => Some(28),
        33 => Some(28),
        34 => Some(22),
        35 => Some(22),
        36 => Some(37),
        37 => Some(7),
        38 => Some(7),
        39 => Some(38),
        40 => Some(5),
        41 => Some(4),
        42 => Some(18),
        43 => Some(3),
        44 => Some(9),
        45 => Some(3),
        46 => Some(2),
        47 => Some(8),
        48 => Some(21),
        49 => Some(20),
        50 => Some(37),
        51 => Some(5),
        54 => Some(27),
        55 => Some(25),
        61 => Some(72),
        62 => Some(26),
        63 => Some(181),
        64 => Some(225),
        65 => Some(42),
        66 => Some(6),
        67 => Some(4),
        69 => Some(30),
        70 => Some(38),
        73 => Some(38),
        74 => Some(20),
        75 => Some(35),
        76 => Some(33),
        77 => Some(10),
        80 => Some(4),
        81 => Some(22),
        82 => Some(51),
        83 => Some(37),
        84 => Some(53),
        85 => Some(51),
        86 => Some(53),
        87 => Some(51),
        89 => Some(28),
        90 => Some(56),
        91 => Some(42),
        92 => Some(33),
        93 => Some(81),
        100 => Some(34),
        101 => Some(117),
        102 => Some(117),
        103 => Some(57),
        104 => Some(116),
        105 => Some(63),
        106 => Some(44),
        107 => Some(65),
        108 => Some(92),
        109 => Some(9),
        110 => Some(254),
        111 => Some(18),
        112 => Some(12),
        113 => Some(39),
        114 => Some(44),
        115 => Some(64),
        116 => Some(24),
        117 => Some(6),
        118 => Some(14),
        119 => Some(12),
        120 => Some(97),
        121 => Some(2),
        122 => Some(2),
        123 => Some(113),
        124 => Some(57),
        125 => Some(6),
        126 => Some(81),
        127 => Some(35),
        128 => Some(35),
        129 => Some(24),
        130 => Some(13),
        131 => Some(255),
        132 => Some(39),
        133 => Some(18),
        134 => Some(43),
        135 => Some(8),
        136 => Some(22),
        137 => Some(16),
        138 => Some(120),
        139 => Some(43),
        140 => Some(41),
        141 => Some(32),
        142 => Some(243),
        143 => Some(16),
        144 => Some(93),
        146 => Some(100),
        147 => Some(54),
        148 => Some(78),
        149 => Some(60),
        162 => Some(9),
        192 => Some(54),
        225 => Some(73),
        230 => Some(42),
        231 => Some(40),
        232 => Some(65),
        233 => Some(182),
        234 => Some(40),
        235 => Some(42),
        241 => Some(32),
        242 => Some(60),
        243 => Some(61),
        244 => Some(6),
        245 => Some(2),
        246 => Some(38),
        247 => Some(19),
        248 => Some(254),
        249 => Some(36),
        250 => Some(30),
        251 => Some(18),
        252 => Some(18),
        253 => Some(54),
        254 => Some(9),
        256 => Some(42),
        257 => Some(9),
        258 => Some(232),
        259 => Some(237),
        260 => Some(14),
        261 => Some(61),
        262 => Some(23),
        263 => Some(255),
        264 => Some(32),
        265 => Some(20),
        266 => Some(255),
        267 => Some(255),
        268 => Some(4),
        269 => Some(215),
        270 => Some(20),
        271 => Some(53),
        275 => Some(32),
        276 => Some(50),
        277 => Some(30),
        280 => Some(33),
        281 => Some(13),
        282 => Some(35),
        283 => Some(145),
        284 => Some(32),
        285 => Some(49),
        286 => Some(57),
        287 => Some(23),
        288 => Some(23),
        290 => Some(46),
        291 => Some(57),
        299 => Some(98),
        300 => Some(22),
        301 => Some(58),
        310 => Some(17),
        311 => Some(116),
        320 => Some(20),
        321 => Some(2),
        322 => Some(149),
        323 => Some(147),
        324 => Some(146),
        330 => Some(167),
        331 => Some(233),
        332 => Some(239),
        333 => Some(109),
        334 => Some(10),
        335 => Some(24),
        336 => Some(84),
        339 => Some(5),
        340 => Some(70),
        350 => Some(252),
        360 => Some(25),
        370 => Some(109),
        371 => Some(26),
        372 => Some(140),
        373 => Some(42),
        375 => Some(140),
        380 => Some(20),
        385 => Some(133),
        386 => Some(16),
        387 => Some(72),
        388 => Some(37),
        390 => Some(238),
        395 => Some(212),
        396 => Some(160),
        397 => Some(108),
        400 => Some(254),
        401 => Some(6),
        410 => Some(53),
        411 => Some(3),
        412 => Some(6),
        413 => Some(7),
        440 => Some(35),
        9000 => Some(137),
        9005 => Some(34),
        12900 => Some(44),
        12901 => Some(59),
        12902 => Some(53),
        12903 => Some(46),
        12904 => Some(54),
        12905 => Some(43),
        12915 => Some(249),
        12918 => Some(51),
        12919 => Some(18),
        12920 => Some(5),
        _ => None,
    }
}

} // verus!
