use crate::b_field_element::{BFieldElement, P};
use crate::rescue_prime::{matrix_values, values, RescuePrime};
use vstd::prelude::*;

verus! {

fn e(v: u128) -> (r: BFieldElement)
    requires
        v < P,
    ensures
        r@ == v,
{
    proof {
        vstd::arithmetic::div_mod::lemma_small_mod(v as nat, P as nat);
    }
    BFieldElement::new(v)
}

/// The MDS matrix of the reference instance.
pub open spec fn reference_mds() -> Seq<Seq<nat>> {
    seq![
        seq![5910257123858819639nat, 3449115226714951713nat, 16770055338049327985nat, 610399731775780810nat, 7363016345531076300nat, 16174724756564259629nat, 8736587794472183152nat, 12699016954477470956nat, 13948112026909862966nat, 18015813124076612987nat, 9568929147539067610nat, 14859461777592116402nat, 18169364738825153183nat, 18221568702798258352nat, 1524268296724555606nat, 5538821761600nat],
        seq![1649528676200182784nat, 336497118937017052nat, 15805000027048028625nat, 15709375513998678646nat, 14837031240173858084nat, 11366298206428370494nat, 15698532768527519720nat, 5911577595727321095nat, 16676030327621016157nat, 16537624251746851423nat, 13325141695736654367nat, 9337952653454313447nat, 9090375522091353302nat, 5605636660979522224nat, 6357222834896114791nat, 7776871531164456679nat],
        seq![8264739868177574620nat, 12732288338686680125nat, 13022293791945187811nat, 17403057736098613442nat, 2871266924987061743nat, 13286707530570640459nat, 9229362695439112266nat, 815317759014579856nat, 7447771153889267897nat, 2209002535000750347nat, 3280506473249596174nat, 13756142018694965622nat, 10518080861296830621nat, 16578355848983066277nat, 12732532221704648123nat, 3426526797578099186nat],
        seq![8563516248221808333nat, 13079317959606236131nat, 15645458946300428515nat, 9958819147895829140nat, 13028053188247480206nat, 6789511720078828478nat, 6583246594815170294nat, 4423695887326249884nat, 9751139665897711642nat, 10039202025292797758nat, 12208726994829996150nat, 6238795140281096003nat, 9113696057226188857nat, 9898705245385052191nat, 4213712701625520075nat, 8038355032286280912nat],
        seq![426685147605824917nat, 7673465577918025498nat, 8452867379070564008nat, 10827610229277395180nat, 16155539332955658546nat, 1575428636717115288nat, 8765972548498757598nat, 8405996249707890526nat, 14855028677418679455nat, 17878170012428694685nat, 16572621079016066883nat, 5311046098447994501nat, 10635376800783355348nat, 14205668690430323921nat, 1181422971831412672nat, 4651053123208915543nat],
        seq![12465667489477238576nat, 7300129031676503132nat, 13458544786180633209nat, 8946801771555977477nat, 14203890406114400141nat, 8219081892380458635nat, 6035067543134909245nat, 15140374581570897616nat, 4514006299509426029nat, 16757530089801321524nat, 13202061911440346802nat, 11227558237427129334nat, 315998614524336401nat, 11280705904396606227nat, 5798516367202621128nat, 17154761698338453414nat],
        seq![13574436947400004837nat, 3126509266905053998nat, 10740979484255925394nat, 9273322683773825324nat, 15349096509718845737nat, 14694022445619674948nat, 8733857890739087596nat, 3198488337424282101nat, 9521016570828679381nat, 11267736037298472148nat, 14825280481028844943nat, 1326588754335738002nat, 6200834522767914499nat, 1070210996042416038nat, 9140190343656907671nat, 15531381283521001952nat],
        seq![253143295675927354nat, 11977331414401291539nat, 13941376566367813256nat, 469904915148256197nat, 10873951860155749104nat, 3939719938926157877nat, 2271392376641547055nat, 4725974756185387075nat, 14827835543640648161nat, 17663273767033351157nat, 12440960700789890843nat, 16589620022628590428nat, 12838889473653138505nat, 11170336581460183657nat, 7583333056198317221nat, 6006908286410425140nat],
        seq![15648567098514276013nat, 188901633101859949nat, 12256163716419861419nat, 17319784688409668747nat, 9648971065289440425nat, 11370683735445551679nat, 11265203235776280908nat, 1737672785338087677nat, 5225587291780939578nat, 4739055740469849012nat, 1212344601223444182nat, 12958616893209019599nat, 7922060480554370635nat, 14661420107595710445nat, 11744359917257111592nat, 9674559564931202709nat],
        seq![8326110231976411065nat, 16856751238353701757nat, 7515652322254196544nat, 2062531989536141174nat, 3875321171362100965nat, 1164854003752487518nat, 3997098993859160292nat, 4074090397542250057nat, 3050858158567944540nat, 4568245569065883863nat, 14559440781022773799nat, 5401845794552358815nat, 6544584366002554176nat, 2511522072283652847nat, 9759884967674698659nat, 16411672358681189856nat],
        seq![11392578809073737776nat, 8013631514034873271nat, 11439549174997471674nat, 6373021446442411366nat, 12491600135569477757nat, 1017093281401495736nat, 663547836518863091nat, 16157302719777897692nat, 11208801522915446640nat, 10058178191286215107nat, 5521712058210208094nat, 3611681474253815005nat, 4864578569041337696nat, 12270319000993569289nat, 7347066511426336318nat, 6696546239958933736nat],
        seq![3335469193383486908nat, 12719366334180058014nat, 14123019207894489639nat, 11418186023060178542nat, 2042199956854124583nat, 17539253100488345226nat, 16240833881391672847nat, 11712520063241304909nat, 6456900719511754234nat, 1819022137223501306nat, 7371152900053879920nat, 6521878675261223812nat, 2050999666988944811nat, 8262038465464898064nat, 13303819303390508091nat, 12657292926928303663nat],
        seq![8794128680724662595nat, 4068577832515945116nat, 758247715040138478nat, 5600369601992438532nat, 3369463178350382224nat, 13763645328734311418nat, 9685701761982837416nat, 2711119809520557835nat, 11680482056777716424nat, 10958223503056770518nat, 4168390070510137163nat, 10823375744683484459nat, 5613197991565754677nat, 11781942063118564684nat, 9352512500813609723nat, 15997830646514778986nat],
        seq![7407352006524266457nat, 15312663387608602775nat, 3026364159907661789nat, 5698531403379362946nat, 2544271242593770624nat, 13104502948897878458nat, 7840062700088318710nat, 6028743588538970215nat, 6144415809411296980nat, 468368941216390216nat, 3638618405705274008nat, 11105401941482704573nat, 1850274872877725129nat, 1011155312563349004nat, 3234620948537841909nat, 3818372677739507813nat],
        seq![4863130691592118581nat, 8942166964590283171nat, 3639677194051371072nat, 15477372418124081864nat, 10322228711752830209nat, 9139111778956611066nat, 202171733050704358nat, 11982413146686512577nat, 11001000478006340870nat, 5491471715020327065nat, 6969114856449768266nat, 11088492421847219924nat, 12913509272810999025nat, 17366506887360149369nat, 7036328554328346102nat, 11139255730689011050nat],
        seq![2844974929907956457nat, 6488525141985913483nat, 2860098796699131680nat, 10366343151884073105nat, 844875652557703984nat, 1053177270393416978nat, 5189466196833763142nat, 1024738234713107670nat, 8846741799369572841nat, 14490406830213564822nat, 10577371742628912722nat, 3276210642025060502nat, 2605621719516949928nat, 5417148926702080639nat, 11100652475866543814nat, 5247366835775169839nat],
    ]
}

/// The inverse of the MDS matrix of the reference instance.
pub open spec fn reference_mds_inv() -> Seq<Seq<nat>> {
    seq![
        seq![1572742562154761373nat, 11904188991461183391nat, 16702037635100780588nat, 10395027733616703929nat, 8130016957979279389nat, 12091057987196709719nat, 14570460902390750822nat, 13452497170858892918nat, 7302470671584418296nat, 12930709087691977410nat, 6940810864055149191nat, 15479085069460687984nat, 15273989414499187903nat, 8742532579937987008nat, 78143684950290654nat, 10454925311792498315nat],
        seq![7789818152192856725nat, 3486011543032592030nat, 17188770042768805161nat, 10490412495468775616nat, 298640180115056798nat, 12895819509602002088nat, 1755013598313843104nat, 17242416429764373372nat, 993835663551930043nat, 17604339535769584753nat, 17954116481891390155nat, 332811330083846624nat, 14730023810555747819nat, 435413210797820565nat, 1781261080337413422nat, 4148505421656051973nat],
        seq![980199695323775177nat, 4706730905557535223nat, 12734714246714791746nat, 14273996233795959868nat, 7921735635146743134nat, 14772166129594741813nat, 2171393332099124215nat, 11431591906353698662nat, 1968460689143086961nat, 12435956952300281356nat, 18203712123938736914nat, 13226878153002754824nat, 4722189513468037980nat, 14552059159516237140nat, 2186026037853355566nat, 11286141841507813990nat],
        seq![565856028734827369nat, 13655906686104936396nat, 8559867348362880285nat, 2797343365604350633nat, 4465794635391355875nat, 10602340776590577912nat, 6532765362293732644nat, 9971594382705594993nat, 8246981798349136173nat, 4260734168634971109nat, 3096607081570771nat, 823237991393038853nat, 17532689952600815755nat, 12134755733102166916nat, 10570439735096051664nat, 18403803913856082900nat],
        seq![13128404168847275462nat, 16663835358650929116nat, 16546671721888068220nat, 4685011688485137218nat, 1959001578540316019nat, 16340711608595843821nat, 9460495021221259854nat, 3858517940845573321nat, 9427670160758976948nat, 18064975260450261693nat, 4905506444249847758nat, 15986418616213903133nat, 9282818778268010424nat, 9769107232941785010nat, 8521948467436343364nat, 7419602577337727529nat],
        seq![5926710664024036226nat, 11667040483862285999nat, 12291037072726747355nat, 12257844845576909578nat, 5216888292865522221nat, 4949589496388892504nat, 6571373688631618567nat, 10091372984903831417nat, 6240610640427541397nat, 6328690792776976228nat, 11836184983048970818nat, 12710419323566440454nat, 10374451385652807364nat, 8254232795575550118nat, 9866490979395302091nat, 12991014125893242232nat],
        seq![1063347186953727863nat, 2952135743830082310nat, 17315974856538709017nat, 14554512349953922358nat, 14134347382797855179nat, 17882046380988406016nat, 17463193400175360824nat, 3726957756828900632nat, 17604631050958608669nat, 7585987025945897953nat, 14470977033142357695nat, 10643295498661723800nat, 8871197056529643534nat, 8384208064507509379nat, 9280566467635869786nat, 87319369282683875nat],
        seq![1100172740622998121nat, 622721254307916221nat, 16843330035110191506nat, 13024130485811341782nat, 12334996107415540952nat, 461552745543935046nat, 8140793910765831499nat, 9008477689109468885nat, 17409910369122253035nat, 1804565454784197696nat, 5310948951638903141nat, 12531953612536647976nat, 6147853502869470889nat, 1125351356112285953nat, 6467901683012265601nat, 16792548587138841945nat],
        seq![14092833521360698433nat, 13651748079341829335nat, 10688258556205752814nat, 1823953496327460008nat, 2558053704584850519nat, 13269131806718310421nat, 4608410977522599149nat, 9221187654763620553nat, 4611978991500182874nat, 8855429001286425455nat, 5696709580182222832nat, 17579496245625003067nat, 5267934104348282564nat, 1835676094870249003nat, 3542280417783105151nat, 11824126253481498070nat],
        seq![9504622962336320170nat, 17887320494921151801nat, 6574518722274623914nat, 16658124633332643846nat, 13808019273382263890nat, 13092903038683672100nat, 501471167473345282nat, 11161560208140424921nat, 13001827442679699140nat, 14739684132127818993nat, 2868223407847949089nat, 1726410909424820290nat, 6794531346610991076nat, 6698331109000773276nat, 3680934785728193940nat, 8875468921351982841nat],
        seq![5477651765997654015nat, 12280771278642823764nat, 3619998794343148112nat, 6883119128428826230nat, 13512760119042878827nat, 3675597821767844913nat, 5414638790278102151nat, 3587251244316549755nat, 17100313981528550060nat, 11048426899172804713nat, 1396562484529002856nat, 2252873797267794672nat, 14201526079271439737nat, 16618356769072634008nat, 144564843743666734nat, 11912794688498369701nat],
        seq![10937102025343594422nat, 15432144252435329607nat, 2221546737981282133nat, 6015808993571140081nat, 7447996510907844453nat, 7039231904611782781nat, 2218118803134364409nat, 9472427559993341443nat, 11066826455107746221nat, 6223571389973384864nat, 13615228926415811268nat, 10241352486499609335nat, 12605380114102527595nat, 11403123666082872720nat, 9771232158486004346nat, 11862860570670038891nat],
        seq![10489319728736503343nat, 588166220336712628nat, 524399652036013851nat, 2215268375273320892nat, 1424724725807107497nat, 2223952838426612865nat, 1901666565705039600nat, 14666084855112001547nat, 16529527081633002035nat, 3475787534446449190nat, 17395838083455569055nat, 10036301139275236437nat, 5830062976180250577nat, 6201110308815839738nat, 3908827014617539568nat, 13269427316630307104nat],
        seq![1104974093011983663nat, 335137437077264843nat, 13411663683768112565nat, 7907493007733959147nat, 17240291213488173803nat, 6357405277112016289nat, 7875258449007392338nat, 16100900298327085499nat, 13542432207857463387nat, 9466802464896264825nat, 9221606791343926561nat, 10417300838622453849nat, 13201838829839066427nat, 9833345239958202067nat, 16688814355354359676nat, 13315432437333533951nat],
        seq![378443609734580293nat, 14654525144709164243nat, 1967217494445269914nat, 16045947041840686058nat, 18049263629128746044nat, 1957063364541610677nat, 16123386013589472221nat, 5923137592664329389nat, 12399617421793397670nat, 3403518680407886401nat, 6416516714555000604nat, 13286977196258324106nat, 17641011370212535641nat, 14823578540420219384nat, 11909888788340877523nat, 11040604022089158722nat],
        seq![14682783085930648838nat, 7896655986299558210nat, 9328642557612914244nat, 6213125364180629684nat, 16259136970573308007nat, 12025260496935037210nat, 1512031407150257270nat, 1295709332547428576nat, 13851880110872460625nat, 6734559515296147531nat, 17720805166223714561nat, 11264121550751120724nat, 7210341680607060660nat, 17759718475616004694nat, 610155440804635364nat, 3209025413915748371nat],
    ]
}

/// The round constants of the reference instance, for eight rounds.
pub open spec fn reference_round_constants() -> Seq<nat> {
    seq![
        15139912583685767368nat,
        8372387753867525709nat,
        2183680717104184380nat,
        3244606960098905893nat,
        3147881977364597901nat,
        9452780775072264938nat,
        1082537058754139762nat,
        10970853375448447283nat,
        3062104324741241281nat,
        18009675040823690122nat,
        9709134112189744652nat,
        15857062738397365943nat,
        5016225506033072343nat,
        5216859395468346115nat,
        6462263614532073214nat,
        1493656999465165663nat,
        828768000476271392nat,
        262568612853428171nat,
        10113927829938360011nat,
        3228404466757125020nat,
        7320852123907649631nat,
        13627426656786462355nat,
        7964883404857794874nat,
        1407934150297697997nat,
        17336604982330804394nat,
        17906014506034551057nat,
        4632709206831589562nat,
        12999797106063314512nat,
        17162978498471467904nat,
        6827540927719713380nat,
        4753504633679017533nat,
        17716852809995758525nat,
        8549423660797843647nat,
        2362390356169006813nat,
        16716828864075537528nat,
        2740683348482332949nat,
        7756193835844677826nat,
        17543799665801483121nat,
        15002804793384601632nat,
        7902645524886711764nat,
        15165733099428544473nat,
        4077635361197762831nat,
        15132376188215154091nat,
        10741861618481937993nat,
        13707397012333257757nat,
        14226034480467186519nat,
        18245513484961172378nat,
        13273670281248631122nat,
        18251304196568320201nat,
        18190580491784411188nat,
        6118572220412064319nat,
        5630770511111509423nat,
        7970516069264861936nat,
        13449271048822160788nat,
        6851697376735269367nat,
        17987627018199535376nat,
        5294172762355915266nat,
        13844513406523115704nat,
        14597636171777994036nat,
        6061614115452481739nat,
        8186070796010445225nat,
        2327693164544063482nat,
        855935718254855095nat,
        10009207201287677622nat,
        10381177680823887718nat,
        18166133947715927863nat,
        17760506907335165396nat,
        3370764898316519938nat,
        5201580129905804035nat,
        1620223121525450629nat,
        14461318317868382163nat,
        1250929940922089768nat,
        13370612866774614255nat,
        7175470036866504098nat,
        16421684582717699126nat,
        16644320598987600726nat,
        17802798266780789487nat,
        6974241949143442442nat,
        17591712720223212489nat,
        16201733676622149735nat,
        286099893890784288nat,
        8057298197517276497nat,
        6444512502860040579nat,
        8347461167435943315nat,
        17352444114675313421nat,
        13535064425127211380nat,
        4772591666336791434nat,
        427985333074531866nat,
        14141791479819390154nat,
        7028809244427084468nat,
        9426904145082569174nat,
        6166111020063614179nat,
        8951223707117953234nat,
        3431064000345231130nat,
        1944155315841337325nat,
        6285600810995398496nat,
        16897111123465175857nat,
        4660909896474179791nat,
        18192626343736320364nat,
        5057838432340191471nat,
        14014302776583938723nat,
        9925254923879301551nat,
        6829435345780265556nat,
        8968794115294201104nat,
        17778545491689490446nat,
        18017797995365371861nat,
        18060766500386119579nat,
        12896732587303423715nat,
        4187616244444972880nat,
        10797712368247465599nat,
        5551515461716974377nat,
        5987237400880775150nat,
        8306936493309794552nat,
        10555482202024602033nat,
        16045656883318709119nat,
        14224667772707921698nat,
        7464515010550790466nat,
        14683637456755672385nat,
        8606694398702844028nat,
        12783325878688361611nat,
        10135605311909694521nat,
        6036681888442161456nat,
        13502595716772524386nat,
        17837288544072949135nat,
        16970790481274575856nat,
        12771951327386638665nat,
        7953144665513487435nat,
        10232601596097265370nat,
        7142562723872426447nat,
        7061326483481627814nat,
        2700322576799317485nat,
        6623246769381195291nat,
        16825539912038364772nat,
        17345255259493544461nat,
        3655344217194071236nat,
        4906781818047525714nat,
        14897453143374918047nat,
        12697105275305687091nat,
        6365510487307614865nat,
        16389921370395602280nat,
        6184292348425681997nat,
        1625734039805583227nat,
        7926303851971506844nat,
        6764450482313517598nat,
        12861725371095466098nat,
        1457318443242363431nat,
        6401144276852156944nat,
        11758577537140385015nat,
        7035279949079298611nat,
        17490109387633149109nat,
        9028549762556146425nat,
        14629064429955990677nat,
        7345978731773547933nat,
        2380447650891770049nat,
        13946626261179506153nat,
        14112757565552107369nat,
        18323048004349754740nat,
        3761840715850313303nat,
        2423761811055022202nat,
        4043073367058340954nat,
        4714747831891079272nat,
        9903324717460101691nat,
        16489681373737990564nat,
        12205142203164019145nat,
        7650721966187356479nat,
        13176636867741415622nat,
        8725940740195977648nat,
        7850051922002287223nat,
        7013216436240322065nat,
        7521500899942431357nat,
        17948709915499568560nat,
        12709968715340313663nat,
        12864870176028239567nat,
        13835492971050856940nat,
        14117813659377608536nat,
        17930389253653738705nat,
        16665999642411270287nat,
        8522764273244228281nat,
        17022385114623716012nat,
        17792533099449144220nat,
        9666141708192493561nat,
        4101243295111900354nat,
        11110149680511328320nat,
        15833373900081216881nat,
        2858902809543644288nat,
        15185937040593697757nat,
        1229742010402781808nat,
        12488915253710643809nat,
        14449445461821352645nat,
        11702325210632962260nat,
        7390229042372607295nat,
        13724660230648496560nat,
        16370078900053649525nat,
        6897898366117786971nat,
        12564585209779431146nat,
        15916465850680923114nat,
        3497319829092809455nat,
        3681935191724738445nat,
        17269401177087593182nat,
        14149218837807091766nat,
        13453529877505970461nat,
        15298165362714239682nat,
        14728462634044980354nat,
        14409721890326796259nat,
        17353894810846356075nat,
        16857127813837277773nat,
        11187357872695367332nat,
        15533140707195072093nat,
        1163405869960896591nat,
        15296392010875874377nat,
        17872716265685676772nat,
        14706935000063347212nat,
        14502717840925123585nat,
        1458466805797611569nat,
        2849079512899132391nat,
        14109081278228167673nat,
        8933669600131241369nat,
        8173386480957668450nat,
        15252826729106121549nat,
        10128993114764423519nat,
        11364771171604097376nat,
        14762095736262922188nat,
        13319725258546020263nat,
        16948750294723703018nat,
        10039494505766092885nat,
        14730563960989205668nat,
        16314543682302146762nat,
        13412588491336542421nat,
        5973689466852663000nat,
        673906515894578274nat,
        4039316712345686736nat,
        2031308080490921066nat,
        2907338798762025874nat,
        12316517814797934964nat,
        9307548410347506674nat,
        9351070955954520832nat,
        5794230072435402060nat,
        7922269617708021679nat,
        9708384153023840180nat,
        16472577099676318887nat,
        5244055413069805590nat,
        18123735486382626662nat,
        6519538476295982160nat,
        14228372996780660309nat,
        7960505044283116493nat,
        13993750470080027634nat,
        11478414004339098168nat,
        5009409638864158506nat,
        15807366605352652129nat,
        10685686439628572285nat,
        6800403862825412390nat,
        13138657193944784618nat,
        6448410590255081786nat,
        4381763274661386195nat,
        3646572817684127401nat,
        2916928929409428212nat,
    ]
}

/// The reference Rescue-Prime instance over this field: state width 16, S-box exponent
/// 7, seven rounds. Its MDS matrix and round constants (for eight rounds) follow the
/// Rescue-Prime reference procedure for capacity 11 and a 160-bit security level: the
/// matrix from the Vandermonde matrix of the generator 7, the constants from SHAKE256.
pub fn rescue_prime_params_bfield_0() -> (r: RescuePrime)
    ensures
        r.wf(),
        r.m == 16,
        r.steps_count == 7,
        r.alpha == 7,
        r.alpha_inv == 10540996611094048183,
        (r.alpha * r.alpha_inv) % ((P - 1) as int) == 1,
        matrix_values(r.mds@) == reference_mds(),
        matrix_values(r.mds_inv@) == reference_mds_inv(),
        values(r.round_constants@) == reference_round_constants(),
{
    let mds: Vec<Vec<BFieldElement>> = vec![
            vec![
                e(5910257123858819639),
                e(3449115226714951713),
                e(16770055338049327985),
                e(610399731775780810),
                e(7363016345531076300),
                e(16174724756564259629),
                e(8736587794472183152),
                e(12699016954477470956),
                e(13948112026909862966),
                e(18015813124076612987),
                e(9568929147539067610),
                e(14859461777592116402),
                e(18169364738825153183),
                e(18221568702798258352),
                e(1524268296724555606),
                e(5538821761600),
            ],
            vec![
                e(1649528676200182784),
                e(336497118937017052),
                e(15805000027048028625),
                e(15709375513998678646),
                e(14837031240173858084),
                e(11366298206428370494),
                e(15698532768527519720),
                e(5911577595727321095),
                e(16676030327621016157),
                e(16537624251746851423),
                e(13325141695736654367),
                e(9337952653454313447),
                e(9090375522091353302),
                e(5605636660979522224),
                e(6357222834896114791),
                e(7776871531164456679),
            ],
            vec![
                e(8264739868177574620),
                e(12732288338686680125),
                e(13022293791945187811),
                e(17403057736098613442),
                e(2871266924987061743),
                e(13286707530570640459),
                e(9229362695439112266),
                e(815317759014579856),
                e(7447771153889267897),
                e(2209002535000750347),
                e(3280506473249596174),
                e(13756142018694965622),
                e(10518080861296830621),
                e(16578355848983066277),
                e(12732532221704648123),
                e(3426526797578099186),
            ],
            vec![
                e(8563516248221808333),
                e(13079317959606236131),
                e(15645458946300428515),
                e(9958819147895829140),
                e(13028053188247480206),
                e(6789511720078828478),
                e(6583246594815170294),
                e(4423695887326249884),
                e(9751139665897711642),
                e(10039202025292797758),
                e(12208726994829996150),
                e(6238795140281096003),
                e(9113696057226188857),
                e(9898705245385052191),
                e(4213712701625520075),
                e(8038355032286280912),
            ],
            vec![
                e(426685147605824917),
                e(7673465577918025498),
                e(8452867379070564008),
                e(10827610229277395180),
                e(16155539332955658546),
                e(1575428636717115288),
                e(8765972548498757598),
                e(8405996249707890526),
                e(14855028677418679455),
                e(17878170012428694685),
                e(16572621079016066883),
                e(5311046098447994501),
                e(10635376800783355348),
                e(14205668690430323921),
                e(1181422971831412672),
                e(4651053123208915543),
            ],
            vec![
                e(12465667489477238576),
                e(7300129031676503132),
                e(13458544786180633209),
                e(8946801771555977477),
                e(14203890406114400141),
                e(8219081892380458635),
                e(6035067543134909245),
                e(15140374581570897616),
                e(4514006299509426029),
                e(16757530089801321524),
                e(13202061911440346802),
                e(11227558237427129334),
                e(315998614524336401),
                e(11280705904396606227),
                e(5798516367202621128),
                e(17154761698338453414),
            ],
            vec![
                e(13574436947400004837),
                e(3126509266905053998),
                e(10740979484255925394),
                e(9273322683773825324),
                e(15349096509718845737),
                e(14694022445619674948),
                e(8733857890739087596),
                e(3198488337424282101),
                e(9521016570828679381),
                e(11267736037298472148),
                e(14825280481028844943),
                e(1326588754335738002),
                e(6200834522767914499),
                e(1070210996042416038),
                e(9140190343656907671),
                e(15531381283521001952),
            ],
            vec![
                e(253143295675927354),
                e(11977331414401291539),
                e(13941376566367813256),
                e(469904915148256197),
                e(10873951860155749104),
                e(3939719938926157877),
                e(2271392376641547055),
                e(4725974756185387075),
                e(14827835543640648161),
                e(17663273767033351157),
                e(12440960700789890843),
                e(16589620022628590428),
                e(12838889473653138505),
                e(11170336581460183657),
                e(7583333056198317221),
                e(6006908286410425140),
            ],
            vec![
                e(15648567098514276013),
                e(188901633101859949),
                e(12256163716419861419),
                e(17319784688409668747),
                e(9648971065289440425),
                e(11370683735445551679),
                e(11265203235776280908),
                e(1737672785338087677),
                e(5225587291780939578),
                e(4739055740469849012),
                e(1212344601223444182),
                e(12958616893209019599),
                e(7922060480554370635),
                e(14661420107595710445),
                e(11744359917257111592),
                e(9674559564931202709),
            ],
            vec![
                e(8326110231976411065),
                e(16856751238353701757),
                e(7515652322254196544),
                e(2062531989536141174),
                e(3875321171362100965),
                e(1164854003752487518),
                e(3997098993859160292),
                e(4074090397542250057),
                e(3050858158567944540),
                e(4568245569065883863),
                e(14559440781022773799),
                e(5401845794552358815),
                e(6544584366002554176),
                e(2511522072283652847),
                e(9759884967674698659),
                e(16411672358681189856),
            ],
            vec![
                e(11392578809073737776),
                e(8013631514034873271),
                e(11439549174997471674),
                e(6373021446442411366),
                e(12491600135569477757),
                e(1017093281401495736),
                e(663547836518863091),
                e(16157302719777897692),
                e(11208801522915446640),
                e(10058178191286215107),
                e(5521712058210208094),
                e(3611681474253815005),
                e(4864578569041337696),
                e(12270319000993569289),
                e(7347066511426336318),
                e(6696546239958933736),
            ],
            vec![
                e(3335469193383486908),
                e(12719366334180058014),
                e(14123019207894489639),
                e(11418186023060178542),
                e(2042199956854124583),
                e(17539253100488345226),
                e(16240833881391672847),
                e(11712520063241304909),
                e(6456900719511754234),
                e(1819022137223501306),
                e(7371152900053879920),
                e(6521878675261223812),
                e(2050999666988944811),
                e(8262038465464898064),
                e(13303819303390508091),
                e(12657292926928303663),
            ],
            vec![
                e(8794128680724662595),
                e(4068577832515945116),
                e(758247715040138478),
                e(5600369601992438532),
                e(3369463178350382224),
                e(13763645328734311418),
                e(9685701761982837416),
                e(2711119809520557835),
                e(11680482056777716424),
                e(10958223503056770518),
                e(4168390070510137163),
                e(10823375744683484459),
                e(5613197991565754677),
                e(11781942063118564684),
                e(9352512500813609723),
                e(15997830646514778986),
            ],
            vec![
                e(7407352006524266457),
                e(15312663387608602775),
                e(3026364159907661789),
                e(5698531403379362946),
                e(2544271242593770624),
                e(13104502948897878458),
                e(7840062700088318710),
                e(6028743588538970215),
                e(6144415809411296980),
                e(468368941216390216),
                e(3638618405705274008),
                e(11105401941482704573),
                e(1850274872877725129),
                e(1011155312563349004),
                e(3234620948537841909),
                e(3818372677739507813),
            ],
            vec![
                e(4863130691592118581),
                e(8942166964590283171),
                e(3639677194051371072),
                e(15477372418124081864),
                e(10322228711752830209),
                e(9139111778956611066),
                e(202171733050704358),
                e(11982413146686512577),
                e(11001000478006340870),
                e(5491471715020327065),
                e(6969114856449768266),
                e(11088492421847219924),
                e(12913509272810999025),
                e(17366506887360149369),
                e(7036328554328346102),
                e(11139255730689011050),
            ],
            vec![
                e(2844974929907956457),
                e(6488525141985913483),
                e(2860098796699131680),
                e(10366343151884073105),
                e(844875652557703984),
                e(1053177270393416978),
                e(5189466196833763142),
                e(1024738234713107670),
                e(8846741799369572841),
                e(14490406830213564822),
                e(10577371742628912722),
                e(3276210642025060502),
                e(2605621719516949928),
                e(5417148926702080639),
                e(11100652475866543814),
                e(5247366835775169839),
            ],
        ];
    let mds_inv: Vec<Vec<BFieldElement>> = vec![
            vec![
                e(1572742562154761373),
                e(11904188991461183391),
                e(16702037635100780588),
                e(10395027733616703929),
                e(8130016957979279389),
                e(12091057987196709719),
                e(14570460902390750822),
                e(13452497170858892918),
                e(7302470671584418296),
                e(12930709087691977410),
                e(6940810864055149191),
                e(15479085069460687984),
                e(15273989414499187903),
                e(8742532579937987008),
                e(78143684950290654),
                e(10454925311792498315),
            ],
            vec![
                e(7789818152192856725),
                e(3486011543032592030),
                e(17188770042768805161),
                e(10490412495468775616),
                e(298640180115056798),
                e(12895819509602002088),
                e(1755013598313843104),
                e(17242416429764373372),
                e(993835663551930043),
                e(17604339535769584753),
                e(17954116481891390155),
                e(332811330083846624),
                e(14730023810555747819),
                e(435413210797820565),
                e(1781261080337413422),
                e(4148505421656051973),
            ],
            vec![
                e(980199695323775177),
                e(4706730905557535223),
                e(12734714246714791746),
                e(14273996233795959868),
                e(7921735635146743134),
                e(14772166129594741813),
                e(2171393332099124215),
                e(11431591906353698662),
                e(1968460689143086961),
                e(12435956952300281356),
                e(18203712123938736914),
                e(13226878153002754824),
                e(4722189513468037980),
                e(14552059159516237140),
                e(2186026037853355566),
                e(11286141841507813990),
            ],
            vec![
                e(565856028734827369),
                e(13655906686104936396),
                e(8559867348362880285),
                e(2797343365604350633),
                e(4465794635391355875),
                e(10602340776590577912),
                e(6532765362293732644),
                e(9971594382705594993),
                e(8246981798349136173),
                e(4260734168634971109),
                e(3096607081570771),
                e(823237991393038853),
                e(17532689952600815755),
                e(12134755733102166916),
                e(10570439735096051664),
                e(18403803913856082900),
            ],
            vec![
                e(13128404168847275462),
                e(16663835358650929116),
                e(16546671721888068220),
                e(4685011688485137218),
                e(1959001578540316019),
                e(16340711608595843821),
                e(9460495021221259854),
                e(3858517940845573321),
                e(9427670160758976948),
                e(18064975260450261693),
                e(4905506444249847758),
                e(15986418616213903133),
                e(9282818778268010424),
                e(9769107232941785010),
                e(8521948467436343364),
                e(7419602577337727529),
            ],
            vec![
                e(5926710664024036226),
                e(11667040483862285999),
                e(12291037072726747355),
                e(12257844845576909578),
                e(5216888292865522221),
                e(4949589496388892504),
                e(6571373688631618567),
                e(10091372984903831417),
                e(6240610640427541397),
                e(6328690792776976228),
                e(11836184983048970818),
                e(12710419323566440454),
                e(10374451385652807364),
                e(8254232795575550118),
                e(9866490979395302091),
                e(12991014125893242232),
            ],
            vec![
                e(1063347186953727863),
                e(2952135743830082310),
                e(17315974856538709017),
                e(14554512349953922358),
                e(14134347382797855179),
                e(17882046380988406016),
                e(17463193400175360824),
                e(3726957756828900632),
                e(17604631050958608669),
                e(7585987025945897953),
                e(14470977033142357695),
                e(10643295498661723800),
                e(8871197056529643534),
                e(8384208064507509379),
                e(9280566467635869786),
                e(87319369282683875),
            ],
            vec![
                e(1100172740622998121),
                e(622721254307916221),
                e(16843330035110191506),
                e(13024130485811341782),
                e(12334996107415540952),
                e(461552745543935046),
                e(8140793910765831499),
                e(9008477689109468885),
                e(17409910369122253035),
                e(1804565454784197696),
                e(5310948951638903141),
                e(12531953612536647976),
                e(6147853502869470889),
                e(1125351356112285953),
                e(6467901683012265601),
                e(16792548587138841945),
            ],
            vec![
                e(14092833521360698433),
                e(13651748079341829335),
                e(10688258556205752814),
                e(1823953496327460008),
                e(2558053704584850519),
                e(13269131806718310421),
                e(4608410977522599149),
                e(9221187654763620553),
                e(4611978991500182874),
                e(8855429001286425455),
                e(5696709580182222832),
                e(17579496245625003067),
                e(5267934104348282564),
                e(1835676094870249003),
                e(3542280417783105151),
                e(11824126253481498070),
            ],
            vec![
                e(9504622962336320170),
                e(17887320494921151801),
                e(6574518722274623914),
                e(16658124633332643846),
                e(13808019273382263890),
                e(13092903038683672100),
                e(501471167473345282),
                e(11161560208140424921),
                e(13001827442679699140),
                e(14739684132127818993),
                e(2868223407847949089),
                e(1726410909424820290),
                e(6794531346610991076),
                e(6698331109000773276),
                e(3680934785728193940),
                e(8875468921351982841),
            ],
            vec![
                e(5477651765997654015),
                e(12280771278642823764),
                e(3619998794343148112),
                e(6883119128428826230),
                e(13512760119042878827),
                e(3675597821767844913),
                e(5414638790278102151),
                e(3587251244316549755),
                e(17100313981528550060),
                e(11048426899172804713),
                e(1396562484529002856),
                e(2252873797267794672),
                e(14201526079271439737),
                e(16618356769072634008),
                e(144564843743666734),
                e(11912794688498369701),
            ],
            vec![
                e(10937102025343594422),
                e(15432144252435329607),
                e(2221546737981282133),
                e(6015808993571140081),
                e(7447996510907844453),
                e(7039231904611782781),
                e(2218118803134364409),
                e(9472427559993341443),
                e(11066826455107746221),
                e(6223571389973384864),
                e(13615228926415811268),
                e(10241352486499609335),
                e(12605380114102527595),
                e(11403123666082872720),
                e(9771232158486004346),
                e(11862860570670038891),
            ],
            vec![
                e(10489319728736503343),
                e(588166220336712628),
                e(524399652036013851),
                e(2215268375273320892),
                e(1424724725807107497),
                e(2223952838426612865),
                e(1901666565705039600),
                e(14666084855112001547),
                e(16529527081633002035),
                e(3475787534446449190),
                e(17395838083455569055),
                e(10036301139275236437),
                e(5830062976180250577),
                e(6201110308815839738),
                e(3908827014617539568),
                e(13269427316630307104),
            ],
            vec![
                e(1104974093011983663),
                e(335137437077264843),
                e(13411663683768112565),
                e(7907493007733959147),
                e(17240291213488173803),
                e(6357405277112016289),
                e(7875258449007392338),
                e(16100900298327085499),
                e(13542432207857463387),
                e(9466802464896264825),
                e(9221606791343926561),
                e(10417300838622453849),
                e(13201838829839066427),
                e(9833345239958202067),
                e(16688814355354359676),
                e(13315432437333533951),
            ],
            vec![
                e(378443609734580293),
                e(14654525144709164243),
                e(1967217494445269914),
                e(16045947041840686058),
                e(18049263629128746044),
                e(1957063364541610677),
                e(16123386013589472221),
                e(5923137592664329389),
                e(12399617421793397670),
                e(3403518680407886401),
                e(6416516714555000604),
                e(13286977196258324106),
                e(17641011370212535641),
                e(14823578540420219384),
                e(11909888788340877523),
                e(11040604022089158722),
            ],
            vec![
                e(14682783085930648838),
                e(7896655986299558210),
                e(9328642557612914244),
                e(6213125364180629684),
                e(16259136970573308007),
                e(12025260496935037210),
                e(1512031407150257270),
                e(1295709332547428576),
                e(13851880110872460625),
                e(6734559515296147531),
                e(17720805166223714561),
                e(11264121550751120724),
                e(7210341680607060660),
                e(17759718475616004694),
                e(610155440804635364),
                e(3209025413915748371),
            ],
        ];
    let round_constants: Vec<BFieldElement> = vec![
            e(15139912583685767368),
            e(8372387753867525709),
            e(2183680717104184380),
            e(3244606960098905893),
            e(3147881977364597901),
            e(9452780775072264938),
            e(1082537058754139762),
            e(10970853375448447283),
            e(3062104324741241281),
            e(18009675040823690122),
            e(9709134112189744652),
            e(15857062738397365943),
            e(5016225506033072343),
            e(5216859395468346115),
            e(6462263614532073214),
            e(1493656999465165663),
            e(828768000476271392),
            e(262568612853428171),
            e(10113927829938360011),
            e(3228404466757125020),
            e(7320852123907649631),
            e(13627426656786462355),
            e(7964883404857794874),
            e(1407934150297697997),
            e(17336604982330804394),
            e(17906014506034551057),
            e(4632709206831589562),
            e(12999797106063314512),
            e(17162978498471467904),
            e(6827540927719713380),
            e(4753504633679017533),
            e(17716852809995758525),
            e(8549423660797843647),
            e(2362390356169006813),
            e(16716828864075537528),
            e(2740683348482332949),
            e(7756193835844677826),
            e(17543799665801483121),
            e(15002804793384601632),
            e(7902645524886711764),
            e(15165733099428544473),
            e(4077635361197762831),
            e(15132376188215154091),
            e(10741861618481937993),
            e(13707397012333257757),
            e(14226034480467186519),
            e(18245513484961172378),
            e(13273670281248631122),
            e(18251304196568320201),
            e(18190580491784411188),
            e(6118572220412064319),
            e(5630770511111509423),
            e(7970516069264861936),
            e(13449271048822160788),
            e(6851697376735269367),
            e(17987627018199535376),
            e(5294172762355915266),
            e(13844513406523115704),
            e(14597636171777994036),
            e(6061614115452481739),
            e(8186070796010445225),
            e(2327693164544063482),
            e(855935718254855095),
            e(10009207201287677622),
            e(10381177680823887718),
            e(18166133947715927863),
            e(17760506907335165396),
            e(3370764898316519938),
            e(5201580129905804035),
            e(1620223121525450629),
            e(14461318317868382163),
            e(1250929940922089768),
            e(13370612866774614255),
            e(7175470036866504098),
            e(16421684582717699126),
            e(16644320598987600726),
            e(17802798266780789487),
            e(6974241949143442442),
            e(17591712720223212489),
            e(16201733676622149735),
            e(286099893890784288),
            e(8057298197517276497),
            e(6444512502860040579),
            e(8347461167435943315),
            e(17352444114675313421),
            e(13535064425127211380),
            e(4772591666336791434),
            e(427985333074531866),
            e(14141791479819390154),
            e(7028809244427084468),
            e(9426904145082569174),
            e(6166111020063614179),
            e(8951223707117953234),
            e(3431064000345231130),
            e(1944155315841337325),
            e(6285600810995398496),
            e(16897111123465175857),
            e(4660909896474179791),
            e(18192626343736320364),
            e(5057838432340191471),
            e(14014302776583938723),
            e(9925254923879301551),
            e(6829435345780265556),
            e(8968794115294201104),
            e(17778545491689490446),
            e(18017797995365371861),
            e(18060766500386119579),
            e(12896732587303423715),
            e(4187616244444972880),
            e(10797712368247465599),
            e(5551515461716974377),
            e(5987237400880775150),
            e(8306936493309794552),
            e(10555482202024602033),
            e(16045656883318709119),
            e(14224667772707921698),
            e(7464515010550790466),
            e(14683637456755672385),
            e(8606694398702844028),
            e(12783325878688361611),
            e(10135605311909694521),
            e(6036681888442161456),
            e(13502595716772524386),
            e(17837288544072949135),
            e(16970790481274575856),
            e(12771951327386638665),
            e(7953144665513487435),
            e(10232601596097265370),
            e(7142562723872426447),
            e(7061326483481627814),
            e(2700322576799317485),
            e(6623246769381195291),
            e(16825539912038364772),
            e(17345255259493544461),
            e(3655344217194071236),
            e(4906781818047525714),
            e(14897453143374918047),
            e(12697105275305687091),
            e(6365510487307614865),
            e(16389921370395602280),
            e(6184292348425681997),
            e(1625734039805583227),
            e(7926303851971506844),
            e(6764450482313517598),
            e(12861725371095466098),
            e(1457318443242363431),
            e(6401144276852156944),
            e(11758577537140385015),
            e(7035279949079298611),
            e(17490109387633149109),
            e(9028549762556146425),
            e(14629064429955990677),
            e(7345978731773547933),
            e(2380447650891770049),
            e(13946626261179506153),
            e(14112757565552107369),
            e(18323048004349754740),
            e(3761840715850313303),
            e(2423761811055022202),
            e(4043073367058340954),
            e(4714747831891079272),
            e(9903324717460101691),
            e(16489681373737990564),
            e(12205142203164019145),
            e(7650721966187356479),
            e(13176636867741415622),
            e(8725940740195977648),
            e(7850051922002287223),
            e(7013216436240322065),
            e(7521500899942431357),
            e(17948709915499568560),
            e(12709968715340313663),
            e(12864870176028239567),
            e(13835492971050856940),
            e(14117813659377608536),
            e(17930389253653738705),
            e(16665999642411270287),
            e(8522764273244228281),
            e(17022385114623716012),
            e(17792533099449144220),
            e(9666141708192493561),
            e(4101243295111900354),
            e(11110149680511328320),
            e(15833373900081216881),
            e(2858902809543644288),
            e(15185937040593697757),
            e(1229742010402781808),
            e(12488915253710643809),
            e(14449445461821352645),
            e(11702325210632962260),
            e(7390229042372607295),
            e(13724660230648496560),
            e(16370078900053649525),
            e(6897898366117786971),
            e(12564585209779431146),
            e(15916465850680923114),
            e(3497319829092809455),
            e(3681935191724738445),
            e(17269401177087593182),
            e(14149218837807091766),
            e(13453529877505970461),
            e(15298165362714239682),
            e(14728462634044980354),
            e(14409721890326796259),
            e(17353894810846356075),
            e(16857127813837277773),
            e(11187357872695367332),
            e(15533140707195072093),
            e(1163405869960896591),
            e(15296392010875874377),
            e(17872716265685676772),
            e(14706935000063347212),
            e(14502717840925123585),
            e(1458466805797611569),
            e(2849079512899132391),
            e(14109081278228167673),
            e(8933669600131241369),
            e(8173386480957668450),
            e(15252826729106121549),
            e(10128993114764423519),
            e(11364771171604097376),
            e(14762095736262922188),
            e(13319725258546020263),
            e(16948750294723703018),
            e(10039494505766092885),
            e(14730563960989205668),
            e(16314543682302146762),
            e(13412588491336542421),
            e(5973689466852663000),
            e(673906515894578274),
            e(4039316712345686736),
            e(2031308080490921066),
            e(2907338798762025874),
            e(12316517814797934964),
            e(9307548410347506674),
            e(9351070955954520832),
            e(5794230072435402060),
            e(7922269617708021679),
            e(9708384153023840180),
            e(16472577099676318887),
            e(5244055413069805590),
            e(18123735486382626662),
            e(6519538476295982160),
            e(14228372996780660309),
            e(7960505044283116493),
            e(13993750470080027634),
            e(11478414004339098168),
            e(5009409638864158506),
            e(15807366605352652129),
            e(10685686439628572285),
            e(6800403862825412390),
            e(13138657193944784618),
            e(6448410590255081786),
            e(4381763274661386195),
            e(3646572817684127401),
            e(2916928929409428212),
        ];
    assert(values(mds@[0]@) =~= reference_mds()[0]);
    assert(values(mds@[1]@) =~= reference_mds()[1]);
    assert(values(mds@[2]@) =~= reference_mds()[2]);
    assert(values(mds@[3]@) =~= reference_mds()[3]);
    assert(values(mds@[4]@) =~= reference_mds()[4]);
    assert(values(mds@[5]@) =~= reference_mds()[5]);
    assert(values(mds@[6]@) =~= reference_mds()[6]);
    assert(values(mds@[7]@) =~= reference_mds()[7]);
    assert(values(mds@[8]@) =~= reference_mds()[8]);
    assert(values(mds@[9]@) =~= reference_mds()[9]);
    assert(values(mds@[10]@) =~= reference_mds()[10]);
    assert(values(mds@[11]@) =~= reference_mds()[11]);
    assert(values(mds@[12]@) =~= reference_mds()[12]);
    assert(values(mds@[13]@) =~= reference_mds()[13]);
    assert(values(mds@[14]@) =~= reference_mds()[14]);
    assert(values(mds@[15]@) =~= reference_mds()[15]);
    assert(matrix_values(mds@) =~= reference_mds());
    assert(values(mds_inv@[0]@) =~= reference_mds_inv()[0]);
    assert(values(mds_inv@[1]@) =~= reference_mds_inv()[1]);
    assert(values(mds_inv@[2]@) =~= reference_mds_inv()[2]);
    assert(values(mds_inv@[3]@) =~= reference_mds_inv()[3]);
    assert(values(mds_inv@[4]@) =~= reference_mds_inv()[4]);
    assert(values(mds_inv@[5]@) =~= reference_mds_inv()[5]);
    assert(values(mds_inv@[6]@) =~= reference_mds_inv()[6]);
    assert(values(mds_inv@[7]@) =~= reference_mds_inv()[7]);
    assert(values(mds_inv@[8]@) =~= reference_mds_inv()[8]);
    assert(values(mds_inv@[9]@) =~= reference_mds_inv()[9]);
    assert(values(mds_inv@[10]@) =~= reference_mds_inv()[10]);
    assert(values(mds_inv@[11]@) =~= reference_mds_inv()[11]);
    assert(values(mds_inv@[12]@) =~= reference_mds_inv()[12]);
    assert(values(mds_inv@[13]@) =~= reference_mds_inv()[13]);
    assert(values(mds_inv@[14]@) =~= reference_mds_inv()[14]);
    assert(values(mds_inv@[15]@) =~= reference_mds_inv()[15]);
    assert(matrix_values(mds_inv@) =~= reference_mds_inv());
    assert(values(round_constants@) =~= reference_round_constants());
    proof {
        vstd::arithmetic::div_mod::lemma_fundamental_div_mod_converse(
            7int * 10540996611094048183int,
            (P - 1) as int,
            4,
            1,
        );
    }
    RescuePrime {
        m: 16,
        steps_count: 7,
        alpha: 7,
        alpha_inv: 10540996611094048183,
        mds,
        mds_inv,
        round_constants,
    }
}

} // verus!
