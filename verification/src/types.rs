//! ASDU type identifiers, causes of transmission and data categories of
//! IEC 60870-5-104.
use vstd::prelude::*;

verus! {

/// Category of a data point or command.
#[derive(Debug, Clone, Copy, PartialEq, Eq, Structural)]
pub enum DataCategory {
    SinglePoint,
    DoublePoint,
    NormalizedMeasured,
    ScaledMeasured,
    FloatMeasured,
    IntegratedTotals,
    Command,
    System,
}

/// The ASDU type identifiers this simulator knows.
#[derive(Debug, Clone, Copy, PartialEq, Eq, Structural)]
pub enum AsduTypeId {
    /// M_SP_NA_1 (1): single-point information
    MSpNa1,
    /// M_DP_NA_1 (3): double-point information
    MDpNa1,
    /// M_ME_NA_1 (9): measured value, normalized
    MMeNa1,
    /// M_ME_NB_1 (11): measured value, scaled
    MMeNb1,
    /// M_ME_NC_1 (13): measured value, short float
    MMeNc1,
    /// M_IT_NA_1 (15): integrated totals
    MItNa1,
    /// M_SP_TB_1 (30): single-point with CP56Time2a
    MSpTb1,
    /// M_DP_TB_1 (31): double-point with CP56Time2a
    MDpTb1,
    /// M_ME_TD_1 (34): normalized with CP56Time2a
    MMeTd1,
    /// M_ME_TE_1 (35): scaled with CP56Time2a
    MMeTe1,
    /// M_ME_TF_1 (36): short float with CP56Time2a
    MMeTf1,
    /// M_IT_TB_1 (37): integrated totals with CP56Time2a
    MItTb1,
    /// C_SC_NA_1 (45): single command
    CScNa1,
    /// C_DC_NA_1 (46): double command
    CDcNa1,
    /// C_SE_NC_1 (50): set-point, short float
    CSeNc1,
    /// C_IC_NA_1 (100): general interrogation
    CIcNa1,
    /// C_CI_NA_1 (101): counter interrogation
    CCiNa1,
    /// C_CS_NA_1 (103): clock synchronization
    CCsNa1,
}

/// The type identifier that a code stands for, if known.
pub open spec fn asdu_of(v: u8) -> Option<AsduTypeId> {
    if v == 1 {
        Some(AsduTypeId::MSpNa1)
    } else if v == 3 {
        Some(AsduTypeId::MDpNa1)
    } else if v == 9 {
        Some(AsduTypeId::MMeNa1)
    } else if v == 11 {
        Some(AsduTypeId::MMeNb1)
    } else if v == 13 {
        Some(AsduTypeId::MMeNc1)
    } else if v == 15 {
        Some(AsduTypeId::MItNa1)
    } else if v == 30 {
        Some(AsduTypeId::MSpTb1)
    } else if v == 31 {
        Some(AsduTypeId::MDpTb1)
    } else if v == 34 {
        Some(AsduTypeId::MMeTd1)
    } else if v == 35 {
        Some(AsduTypeId::MMeTe1)
    } else if v == 36 {
        Some(AsduTypeId::MMeTf1)
    } else if v == 37 {
        Some(AsduTypeId::MItTb1)
    } else if v == 45 {
        Some(AsduTypeId::CScNa1)
    } else if v == 46 {
        Some(AsduTypeId::CDcNa1)
    } else if v == 50 {
        Some(AsduTypeId::CSeNc1)
    } else if v == 100 {
        Some(AsduTypeId::CIcNa1)
    } else if v == 101 {
        Some(AsduTypeId::CCiNa1)
    } else if v == 103 {
        Some(AsduTypeId::CCsNa1)
    } else {
        None
    }
}

/// The wire code of a type identifier.
pub open spec fn asdu_code(t: AsduTypeId) -> u8 {
    match t {
        AsduTypeId::MSpNa1 => 1,
        AsduTypeId::MDpNa1 => 3,
        AsduTypeId::MMeNa1 => 9,
        AsduTypeId::MMeNb1 => 11,
        AsduTypeId::MMeNc1 => 13,
        AsduTypeId::MItNa1 => 15,
        AsduTypeId::MSpTb1 => 30,
        AsduTypeId::MDpTb1 => 31,
        AsduTypeId::MMeTd1 => 34,
        AsduTypeId::MMeTe1 => 35,
        AsduTypeId::MMeTf1 => 36,
        AsduTypeId::MItTb1 => 37,
        AsduTypeId::CScNa1 => 45,
        AsduTypeId::CDcNa1 => 46,
        AsduTypeId::CSeNc1 => 50,
        AsduTypeId::CIcNa1 => 100,
        AsduTypeId::CCiNa1 => 101,
        AsduTypeId::CCsNa1 => 103,
    }
}

/// The IEC mnemonic of a type identifier.
pub open spec fn asdu_name(t: AsduTypeId) -> Seq<char> {
    match t {
        AsduTypeId::MSpNa1 => "M_SP_NA_1"@,
        AsduTypeId::MDpNa1 => "M_DP_NA_1"@,
        AsduTypeId::MMeNa1 => "M_ME_NA_1"@,
        AsduTypeId::MMeNb1 => "M_ME_NB_1"@,
        AsduTypeId::MMeNc1 => "M_ME_NC_1"@,
        AsduTypeId::MItNa1 => "M_IT_NA_1"@,
        AsduTypeId::MSpTb1 => "M_SP_TB_1"@,
        AsduTypeId::MDpTb1 => "M_DP_TB_1"@,
        AsduTypeId::MMeTd1 => "M_ME_TD_1"@,
        AsduTypeId::MMeTe1 => "M_ME_TE_1"@,
        AsduTypeId::MMeTf1 => "M_ME_TF_1"@,
        AsduTypeId::MItTb1 => "M_IT_TB_1"@,
        AsduTypeId::CScNa1 => "C_SC_NA_1"@,
        AsduTypeId::CDcNa1 => "C_DC_NA_1"@,
        AsduTypeId::CSeNc1 => "C_SE_NC_1"@,
        AsduTypeId::CIcNa1 => "C_IC_NA_1"@,
        AsduTypeId::CCiNa1 => "C_CI_NA_1"@,
        AsduTypeId::CCsNa1 => "C_CS_NA_1"@,
    }
}

/// The data category a type identifier belongs to.
pub open spec fn asdu_category(t: AsduTypeId) -> DataCategory {
    match t {
        AsduTypeId::MSpNa1 | AsduTypeId::MSpTb1 => DataCategory::SinglePoint,
        AsduTypeId::MDpNa1 | AsduTypeId::MDpTb1 => DataCategory::DoublePoint,
        AsduTypeId::MMeNa1 | AsduTypeId::MMeTd1 => DataCategory::NormalizedMeasured,
        AsduTypeId::MMeNb1 | AsduTypeId::MMeTe1 => DataCategory::ScaledMeasured,
        AsduTypeId::MMeNc1 | AsduTypeId::MMeTf1 => DataCategory::FloatMeasured,
        AsduTypeId::MItNa1 | AsduTypeId::MItTb1 => DataCategory::IntegratedTotals,
        AsduTypeId::CScNa1 | AsduTypeId::CDcNa1 | AsduTypeId::CSeNc1 => DataCategory::Command,
        AsduTypeId::CIcNa1 | AsduTypeId::CCiNa1 | AsduTypeId::CCsNa1 => DataCategory::System,
    }
}

/// The display name of a data category.
pub open spec fn category_name(c: DataCategory) -> Seq<char> {
    match c {
        DataCategory::SinglePoint => "Single Point"@,
        DataCategory::DoublePoint => "Double Point"@,
        DataCategory::NormalizedMeasured => "Normalized"@,
        DataCategory::ScaledMeasured => "Scaled"@,
        DataCategory::FloatMeasured => "Float"@,
        DataCategory::IntegratedTotals => "Integrated Totals"@,
        DataCategory::Command => "Command"@,
        DataCategory::System => "System"@,
    }
}

impl DataCategory {
    /// The display name, e.g. `"Single Point"`.
    pub fn name(&self) -> (r: &'static str)
        ensures
            r@ == category_name(*self),
    {
        match self {
            DataCategory::SinglePoint => "Single Point",
            DataCategory::DoublePoint => "Double Point",
            DataCategory::NormalizedMeasured => "Normalized",
            DataCategory::ScaledMeasured => "Scaled",
            DataCategory::FloatMeasured => "Float",
            DataCategory::IntegratedTotals => "Integrated Totals",
            DataCategory::Command => "Command",
            DataCategory::System => "System",
        }
    }
}

impl AsduTypeId {
    /// The type identifier for a wire code, if known.
    pub fn from_u8(v: u8) -> (r: Option<AsduTypeId>)
        ensures
            r == asdu_of(v),
    {
        match v {
            1 => Some(AsduTypeId::MSpNa1),
            3 => Some(AsduTypeId::MDpNa1),
            9 => Some(AsduTypeId::MMeNa1),
            11 => Some(AsduTypeId::MMeNb1),
            13 => Some(AsduTypeId::MMeNc1),
            15 => Some(AsduTypeId::MItNa1),
            30 => Some(AsduTypeId::MSpTb1),
            31 => Some(AsduTypeId::MDpTb1),
            34 => Some(AsduTypeId::MMeTd1),
            35 => Some(AsduTypeId::MMeTe1),
            36 => Some(AsduTypeId::MMeTf1),
            37 => Some(AsduTypeId::MItTb1),
            45 => Some(AsduTypeId::CScNa1),
            46 => Some(AsduTypeId::CDcNa1),
            50 => Some(AsduTypeId::CSeNc1),
            100 => Some(AsduTypeId::CIcNa1),
            101 => Some(AsduTypeId::CCiNa1),
            103 => Some(AsduTypeId::CCsNa1),
            _ => None,
        }
    }

    /// The wire code of this type identifier.
    pub fn code(&self) -> (r: u8)
        ensures
            r == asdu_code(*self),
            asdu_of(r) == Some(*self),
    {
        match self {
            AsduTypeId::MSpNa1 => 1,
            AsduTypeId::MDpNa1 => 3,
            AsduTypeId::MMeNa1 => 9,
            AsduTypeId::MMeNb1 => 11,
            AsduTypeId::MMeNc1 => 13,
            AsduTypeId::MItNa1 => 15,
            AsduTypeId::MSpTb1 => 30,
            AsduTypeId::MDpTb1 => 31,
            AsduTypeId::MMeTd1 => 34,
            AsduTypeId::MMeTe1 => 35,
            AsduTypeId::MMeTf1 => 36,
            AsduTypeId::MItTb1 => 37,
            AsduTypeId::CScNa1 => 45,
            AsduTypeId::CDcNa1 => 46,
            AsduTypeId::CSeNc1 => 50,
            AsduTypeId::CIcNa1 => 100,
            AsduTypeId::CCiNa1 => 101,
            AsduTypeId::CCsNa1 => 103,
        }
    }

    /// The IEC mnemonic, e.g. `"M_SP_NA_1"`.
    pub fn name(&self) -> (r: &'static str)
        ensures
            r@ == asdu_name(*self),
    {
        match self {
            AsduTypeId::MSpNa1 => "M_SP_NA_1",
            AsduTypeId::MDpNa1 => "M_DP_NA_1",
            AsduTypeId::MMeNa1 => "M_ME_NA_1",
            AsduTypeId::MMeNb1 => "M_ME_NB_1",
            AsduTypeId::MMeNc1 => "M_ME_NC_1",
            AsduTypeId::MItNa1 => "M_IT_NA_1",
            AsduTypeId::MSpTb1 => "M_SP_TB_1",
            AsduTypeId::MDpTb1 => "M_DP_TB_1",
            AsduTypeId::MMeTd1 => "M_ME_TD_1",
            AsduTypeId::MMeTe1 => "M_ME_TE_1",
            AsduTypeId::MMeTf1 => "M_ME_TF_1",
            AsduTypeId::MItTb1 => "M_IT_TB_1",
            AsduTypeId::CScNa1 => "C_SC_NA_1",
            AsduTypeId::CDcNa1 => "C_DC_NA_1",
            AsduTypeId::CSeNc1 => "C_SE_NC_1",
            AsduTypeId::CIcNa1 => "C_IC_NA_1",
            AsduTypeId::CCiNa1 => "C_CI_NA_1",
            AsduTypeId::CCsNa1 => "C_CS_NA_1",
        }
    }

    /// The data category of this type identifier.
    pub fn category(&self) -> (r: DataCategory)
        ensures
            r == asdu_category(*self),
    {
        match self {
            AsduTypeId::MSpNa1 | AsduTypeId::MSpTb1 => DataCategory::SinglePoint,
            AsduTypeId::MDpNa1 | AsduTypeId::MDpTb1 => DataCategory::DoublePoint,
            AsduTypeId::MMeNa1 | AsduTypeId::MMeTd1 => DataCategory::NormalizedMeasured,
            AsduTypeId::MMeNb1 | AsduTypeId::MMeTe1 => DataCategory::ScaledMeasured,
            AsduTypeId::MMeNc1 | AsduTypeId::MMeTf1 => DataCategory::FloatMeasured,
            AsduTypeId::MItNa1 | AsduTypeId::MItTb1 => DataCategory::IntegratedTotals,
            AsduTypeId::CScNa1 | AsduTypeId::CDcNa1 | AsduTypeId::CSeNc1 => DataCategory::Command,
            AsduTypeId::CIcNa1 | AsduTypeId::CCiNa1 | AsduTypeId::CCsNa1 => DataCategory::System,
        }
    }
}

/// Cause of transmission values this simulator knows.
#[derive(Debug, Clone, Copy, PartialEq, Eq, Structural)]
pub enum CauseOfTransmission {
    Periodic,
    Background,
    Spontaneous,
    Initialized,
    Request,
    Activation,
    ActivationCon,
    Deactivation,
    DeactivationCon,
    ActivationTermination,
    InterrogatedByStation,
    RequestedByGeneralCounter,
    UnknownTypeId,
    UnknownCause,
    UnknownCommonAddress,
    UnknownIoa,
}

/// The cause that a code stands for, if known.
pub open spec fn cause_of(v: u8) -> Option<CauseOfTransmission> {
    if v == 1 {
        Some(CauseOfTransmission::Periodic)
    } else if v == 2 {
        Some(CauseOfTransmission::Background)
    } else if v == 3 {
        Some(CauseOfTransmission::Spontaneous)
    } else if v == 4 {
        Some(CauseOfTransmission::Initialized)
    } else if v == 5 {
        Some(CauseOfTransmission::Request)
    } else if v == 6 {
        Some(CauseOfTransmission::Activation)
    } else if v == 7 {
        Some(CauseOfTransmission::ActivationCon)
    } else if v == 8 {
        Some(CauseOfTransmission::Deactivation)
    } else if v == 9 {
        Some(CauseOfTransmission::DeactivationCon)
    } else if v == 10 {
        Some(CauseOfTransmission::ActivationTermination)
    } else if v == 20 {
        Some(CauseOfTransmission::InterrogatedByStation)
    } else if v == 37 {
        Some(CauseOfTransmission::RequestedByGeneralCounter)
    } else if v == 44 {
        Some(CauseOfTransmission::UnknownTypeId)
    } else if v == 45 {
        Some(CauseOfTransmission::UnknownCause)
    } else if v == 46 {
        Some(CauseOfTransmission::UnknownCommonAddress)
    } else if v == 47 {
        Some(CauseOfTransmission::UnknownIoa)
    } else {
        None
    }
}

/// The IEC mnemonic of a cause of transmission.
pub open spec fn cause_name(c: CauseOfTransmission) -> Seq<char> {
    match c {
        CauseOfTransmission::Periodic => "per/cyc"@,
        CauseOfTransmission::Background => "back"@,
        CauseOfTransmission::Spontaneous => "spont"@,
        CauseOfTransmission::Initialized => "init"@,
        CauseOfTransmission::Request => "req"@,
        CauseOfTransmission::Activation => "act"@,
        CauseOfTransmission::ActivationCon => "actcon"@,
        CauseOfTransmission::Deactivation => "deact"@,
        CauseOfTransmission::DeactivationCon => "deactcon"@,
        CauseOfTransmission::ActivationTermination => "actterm"@,
        CauseOfTransmission::InterrogatedByStation => "inrogen"@,
        CauseOfTransmission::RequestedByGeneralCounter => "reqcogen"@,
        CauseOfTransmission::UnknownTypeId => "unknown type"@,
        CauseOfTransmission::UnknownCause => "unknown cause"@,
        CauseOfTransmission::UnknownCommonAddress => "unknown CA"@,
        CauseOfTransmission::UnknownIoa => "unknown IOA"@,
    }
}

impl CauseOfTransmission {
    /// The cause for a wire code, if known.
    pub fn from_u8(v: u8) -> (r: Option<CauseOfTransmission>)
        ensures
            r == cause_of(v),
    {
        match v {
            1 => Some(CauseOfTransmission::Periodic),
            2 => Some(CauseOfTransmission::Background),
            3 => Some(CauseOfTransmission::Spontaneous),
            4 => Some(CauseOfTransmission::Initialized),
            5 => Some(CauseOfTransmission::Request),
            6 => Some(CauseOfTransmission::Activation),
            7 => Some(CauseOfTransmission::ActivationCon),
            8 => Some(CauseOfTransmission::Deactivation),
            9 => Some(CauseOfTransmission::DeactivationCon),
            10 => Some(CauseOfTransmission::ActivationTermination),
            20 => Some(CauseOfTransmission::InterrogatedByStation),
            37 => Some(CauseOfTransmission::RequestedByGeneralCounter),
            44 => Some(CauseOfTransmission::UnknownTypeId),
            45 => Some(CauseOfTransmission::UnknownCause),
            46 => Some(CauseOfTransmission::UnknownCommonAddress),
            47 => Some(CauseOfTransmission::UnknownIoa),
            _ => None,
        }
    }

    /// The IEC mnemonic, e.g. `"actcon"`.
    pub fn name(&self) -> (r: &'static str)
        ensures
            r@ == cause_name(*self),
    {
        match self {
            CauseOfTransmission::Periodic => "per/cyc",
            CauseOfTransmission::Background => "back",
            CauseOfTransmission::Spontaneous => "spont",
            CauseOfTransmission::Initialized => "init",
            CauseOfTransmission::Request => "req",
            CauseOfTransmission::Activation => "act",
            CauseOfTransmission::ActivationCon => "actcon",
            CauseOfTransmission::Deactivation => "deact",
            CauseOfTransmission::DeactivationCon => "deactcon",
            CauseOfTransmission::ActivationTermination => "actterm",
            CauseOfTransmission::InterrogatedByStation => "inrogen",
            CauseOfTransmission::RequestedByGeneralCounter => "reqcogen",
            CauseOfTransmission::UnknownTypeId => "unknown type",
            CauseOfTransmission::UnknownCause => "unknown cause",
            CauseOfTransmission::UnknownCommonAddress => "unknown CA",
            CauseOfTransmission::UnknownIoa => "unknown IOA",
        }
    }
}

} // verus!
